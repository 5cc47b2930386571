//! Text helpers: splitting on a separator, comparing and cutting strings,
//! and the std string functions the library calls.

use vstd::prelude::*;
use vstd::string::*;

verus! {

broadcast use vstd::string::group_string_axioms;

/// The pieces of `s` between occurrences of `sep`, as `str::split` yields
/// them: there is always at least one piece, and every separator starts a
/// new (possibly empty) piece.
pub open spec fn split_on(s: Seq<char>, sep: char) -> Seq<Seq<char>>
    decreases s.len(),
{
    if s.len() == 0 {
        seq![Seq::<char>::empty()]
    } else {
        let prev = split_on(s.drop_last(), sep);
        if s.last() == sep {
            prev.push(Seq::<char>::empty())
        } else {
            prev.update(prev.len() - 1, prev.last().push(s.last()))
        }
    }
}

pub proof fn lemma_split_on_nonempty(s: Seq<char>, sep: char)
    ensures
        split_on(s, sep).len() >= 1,
    decreases s.len(),
{
    if s.len() > 0 {
        lemma_split_on_nonempty(s.drop_last(), sep);
    }
}

/// A text without the separator is a single piece.
pub proof fn lemma_split_on_single(x: Seq<char>, sep: char)
    requires
        !x.contains(sep),
    ensures
        split_on(x, sep) == seq![x],
    decreases x.len(),
{
    if x.len() > 0 {
        assert(!x.drop_last().contains(sep)) by {
            if x.drop_last().contains(sep) {
                let i = choose|i: int| 0 <= i < x.drop_last().len() && x.drop_last()[i] == sep;
                assert(x[i] == sep);
            }
        }
        lemma_split_on_single(x.drop_last(), sep);
        assert(x.last() != sep) by {
            assert(x[x.len() - 1] == x.last());
        }
        assert(x.drop_last().push(x.last()) =~= x);
        assert(split_on(x, sep) =~= seq![x]);
    } else {
        assert(x =~= Seq::<char>::empty());
    }
}

/// Splitting at a separator splits the two sides independently.
pub proof fn lemma_split_on_join(a: Seq<char>, b: Seq<char>, sep: char)
    ensures
        split_on(a + seq![sep] + b, sep) == split_on(a, sep) + split_on(b, sep),
    decreases b.len(),
{
    let whole = a + seq![sep] + b;
    lemma_split_on_nonempty(a, sep);
    lemma_split_on_nonempty(b, sep);
    if b.len() == 0 {
        assert(whole.drop_last() =~= a);
        assert(split_on(b, sep) =~= seq![Seq::<char>::empty()]);
        assert(split_on(whole, sep) =~= split_on(a, sep) + split_on(b, sep));
    } else {
        lemma_split_on_join(a, b.drop_last(), sep);
        lemma_split_on_nonempty(b.drop_last(), sep);
        assert(whole.drop_last() =~= a + seq![sep] + b.drop_last());
        assert(whole.last() == b.last());
        assert(split_on(whole, sep) =~= split_on(a, sep) + split_on(b, sep));
    }
}

/// End (exclusive) of piece `j` when pieces start at `starts` in a text of
/// length `n`: the next piece starts just after the separator that ends it.
pub open spec fn piece_end(starts: Seq<usize>, j: int, n: int) -> int {
    if j + 1 < starts.len() {
        starts[j + 1] - 1
    } else {
        n
    }
}

/// `starts` marks the pieces of `s` split on `sep`.
pub open spec fn marks_pieces(s: Seq<char>, sep: char, starts: Seq<usize>) -> bool {
    &&& starts.len() == split_on(s, sep).len()
    &&& forall|j: int|
        0 <= j < starts.len() ==> 0 <= #[trigger] starts[j] <= piece_end(starts, j, s.len() as int)
            <= s.len()
    &&& forall|j: int|
        0 <= j < starts.len() ==> split_on(s, sep)[j] == s.subrange(
            #[trigger] starts[j] as int,
            piece_end(starts, j, s.len() as int),
        )
}

/// Char offsets at which the pieces of `s` split on `sep` start.
pub fn piece_starts(s: &str, sep: char) -> (starts: Vec<usize>)
    ensures
        marks_pieces(s@, sep, starts@),
{
    let n = s.unicode_len();
    let mut starts: Vec<usize> = Vec::new();
    starts.push(0);
    let mut k: usize = 0;
    proof {
        assert(s@.take(0) =~= Seq::<char>::empty());
        assert(split_on(s@.take(0), sep) =~= seq![Seq::<char>::empty()]);
        assert(s@.subrange(0, 0) =~= Seq::<char>::empty());
        assert(starts@ =~= seq![0usize]);
        assert(piece_end(starts@, 0, 0) == 0);
        assert(s@.take(0).subrange(0, 0) =~= Seq::<char>::empty());
        assert(marks_pieces(s@.take(0), sep, starts@));
    }
    for c in it: s.chars()
        invariant
            n == s@.len(),
            it.seq() == s@,
            k == it.index(),
            k <= n,
            marks_pieces(s@.take(k as int), sep, starts@),
    {
        let ghost t = s@.take(k as int);
        let ghost t2 = s@.take(k + 1);
        proof {
            assert(t2.drop_last() =~= t);
            assert(t2.last() == c);
            lemma_split_on_nonempty(t, sep);
        }
        if c == sep {
            starts.push(k + 1);
            proof {
                assert forall|j: int| 0 <= j < starts@.len() implies split_on(t2, sep)[j] == t2.subrange(
                    #[trigger] starts@[j] as int,
                    piece_end(starts@, j, t2.len() as int),
                ) by {
                    if j + 1 < starts@.len() {
                        assert(t.subrange(starts@[j] as int, piece_end(starts@.drop_last(), j, t.len() as int))
                            =~= t2.subrange(starts@[j] as int, piece_end(starts@, j, t2.len() as int)));
                    } else {
                        assert(t2.subrange(starts@[j] as int, t2.len() as int) =~= Seq::<char>::empty());
                    }
                }
            }
        } else {
            proof {
                let last = starts@.len() - 1;
                assert forall|j: int| 0 <= j < starts@.len() implies split_on(t2, sep)[j] == t2.subrange(
                    #[trigger] starts@[j] as int,
                    piece_end(starts@, j, t2.len() as int),
                ) by {
                    if j < last {
                        assert(t.subrange(starts@[j] as int, piece_end(starts@, j, t.len() as int))
                            =~= t2.subrange(starts@[j] as int, piece_end(starts@, j, t2.len() as int)));
                    } else {
                        assert(t.subrange(starts@[j] as int, t.len() as int).push(c)
                            =~= t2.subrange(starts@[j] as int, t2.len() as int));
                    }
                }
            }
        }
        k = k + 1;
    }
    proof {
        assert(s@.take(n as int) =~= s@);
    }
    starts
}


/// Whether two strings hold the same characters.
pub fn same_text(a: &str, b: &str) -> (r: bool)
    ensures
        r == (a@ == b@),
{
    let x = String::from_str(a);
    let y = String::from_str(b);
    x == y
}

/// ASCII lowercase of one character: `A`..=`Z` become `a`..=`z`, every
/// other character stays.
pub open spec fn ascii_lower_char(c: char) -> char {
    if 'A' <= c && c <= 'Z' {
        ((c as u32) + 32) as char
    } else {
        c
    }
}

/// What `str::to_lowercase` returns: Unicode lowercase mapping of every
/// character. Its tables are not written out here.
pub uninterp spec fn lowercase(s: Seq<char>) -> Seq<char>;

/// Calls `str::to_lowercase`. The result is `lowercase(s@)`; on ASCII text
/// it is the ASCII lowercase of each character (ASCII characters other
/// than `A`..=`Z` have no lowercase mapping and stay as they are).
#[verifier::external_body]
pub(crate) fn to_lowercase(s: &str) -> (r: String)
    ensures
        r@ == lowercase(s@),
        vstd::utf8::is_ascii_chars(s@) ==> r@ == s@.map_values(|c: char| ascii_lower_char(c)),
{
    s.to_lowercase()
}

/// The lowercase form of a text: ASCII lowercase on ASCII text, Unicode
/// lowercase (as `str::to_lowercase` computes it) otherwise.
pub open spec fn lower_text(s: Seq<char>) -> Seq<char> {
    if vstd::utf8::is_ascii_chars(s) {
        s.map_values(|c: char| ascii_lower_char(c))
    } else {
        lowercase(s)
    }
}

/// Unicode White_Space, the characters `str::trim` removes: U+0009 to
/// U+000D, U+0020, U+0085, U+00A0, U+1680, U+2000 to U+200A, U+2028,
/// U+2029, U+202F, U+205F and U+3000.
pub open spec fn is_white_space(c: char) -> bool {
    ||| ('\u{9}' <= c && c <= '\u{d}')
    ||| c == ' '
    ||| c == '\u{85}'
    ||| c == '\u{a0}'
    ||| c == '\u{1680}'
    ||| ('\u{2000}' <= c && c <= '\u{200a}')
    ||| c == '\u{2028}'
    ||| c == '\u{2029}'
    ||| c == '\u{202f}'
    ||| c == '\u{205f}'
    ||| c == '\u{3000}'
}

/// The text without its leading white space.
pub open spec fn trim_start(s: Seq<char>) -> Seq<char>
    decreases s.len(),
{
    if s.len() > 0 && is_white_space(s[0]) {
        trim_start(s.drop_first())
    } else {
        s
    }
}

/// The text without its trailing white space.
pub open spec fn trim_end(s: Seq<char>) -> Seq<char>
    decreases s.len(),
{
    if s.len() > 0 && is_white_space(s.last()) {
        trim_end(s.drop_last())
    } else {
        s
    }
}

/// The text without leading and trailing white space, as `str::trim`
/// returns it.
pub open spec fn trimmed(s: Seq<char>) -> Seq<char> {
    trim_end(trim_start(s))
}

fn is_white_space_char(c: char) -> (r: bool)
    ensures
        r == is_white_space(c),
{
    ('\u{9}' <= c && c <= '\u{d}') || c == ' ' || c == '\u{85}' || c == '\u{a0}' || c == '\u{1680}'
        || ('\u{2000}' <= c && c <= '\u{200a}') || c == '\u{2028}' || c == '\u{2029}' || c == '\u{202f}'
        || c == '\u{205f}' || c == '\u{3000}'
}

/// The characters of `s`, one by one.
pub fn chars_of(s: &str) -> (v: Vec<char>)
    ensures
        v@ == s@,
{
    let mut v: Vec<char> = Vec::new();
    for c in it: s.chars()
        invariant
            it.seq() == s@,
            v@ == s@.take(it.index() as int),
    {
        proof {
            assert(s@.take(it.index() + 1) =~= v@.push(c));
        }
        v.push(c);
    }
    proof {
        assert(s@.take(s@.len() as int) =~= s@);
    }
    v
}

/// The text without leading and trailing white space.
pub fn trim(s: &str) -> (r: &str)
    ensures
        r@ == trimmed(s@),
{
    let v = chars_of(s);
    let n = v.len();
    let mut i: usize = 0;
    proof {
        assert(s@.skip(0) =~= s@);
    }
    while i < n && is_white_space_char(v[i])
        invariant
            n == s@.len(),
            v@ == s@,
            i <= n,
            trim_start(s@) == trim_start(s@.skip(i as int)),
        decreases n - i,
    {
        proof {
            assert(s@.skip(i as int).drop_first() =~= s@.skip(i + 1));
        }
        i = i + 1;
    }
    let ghost front = s@.skip(i as int);
    proof {
        assert(trim_start(front) == front);
        assert(s@.subrange(i as int, n as int) =~= front);
    }
    let mut j: usize = n;
    while j > i && is_white_space_char(v[j - 1])
        invariant
            n == s@.len(),
            v@ == s@,
            i <= j <= n,
            trimmed(s@) == trim_end(s@.subrange(i as int, j as int)),
        decreases j - i,
    {
        proof {
            assert(s@.subrange(i as int, j as int).drop_last() =~= s@.subrange(i as int, j - 1));
        }
        j = j - 1;
    }
    proof {
        if j == i {
            assert(s@.subrange(i as int, j as int) =~= Seq::<char>::empty());
        }
    }
    s.substring_char(i, j)
}
} // verus!
