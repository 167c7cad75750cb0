//! Character-level text handling: trimming, substring replacement and
//! splitting, stated over the `Seq<char>` view of strings.
use vstd::prelude::*;

verus! {

/// Unicode `White_Space`, the property that `char::is_whitespace` and
/// `str::trim` go by.
pub open spec fn is_whitespace(c: char) -> bool {
    ||| ('\u{9}' <= c && c <= '\u{d}')
    ||| c == ' '
    ||| c == '\u{85}'
    ||| c == '\u{a0}'
    ||| c == '\u{1680}'
    ||| ('\u{2000}' <= c && c <= '\u{200a}')
    ||| c == '\u{2028}'
    ||| c == '\u{2029}'
    ||| c == '\u{202f}'
    ||| c == '\u{205f}'
    ||| c == '\u{3000}'
}

/// An ASCII letter or digit: what the class `[a-zA-Z0-9]` holds.
pub open spec fn is_ascii_alnum(c: char) -> bool {
    ||| ('a' <= c && c <= 'z')
    ||| ('A' <= c && c <= 'Z')
    ||| ('0' <= c && c <= '9')
}

/// `s` without its trailing whitespace.
pub open spec fn trim_end_spec(s: Seq<char>) -> Seq<char>
    decreases s.len(),
{
    if s.len() > 0 && is_whitespace(s.last()) {
        trim_end_spec(s.drop_last())
    } else {
        s
    }
}

/// `s` without its leading whitespace.
pub open spec fn trim_start_spec(s: Seq<char>) -> Seq<char>
    decreases s.len(),
{
    if s.len() > 0 && is_whitespace(s[0]) {
        trim_start_spec(s.drop_first())
    } else {
        s
    }
}

/// `s` without leading and trailing whitespace.
pub open spec fn trim_spec(s: Seq<char>) -> Seq<char> {
    trim_start_spec(trim_end_spec(s))
}

/// Every non-overlapping occurrence of `pat` in `s`, taken from the left,
/// replaced by `rep`.
pub open spec fn replace_spec(s: Seq<char>, pat: Seq<char>, rep: Seq<char>) -> Seq<char>
    decreases s.len(),
{
    if s.len() == 0 {
        s
    } else if pat.len() > 0 && pat.len() <= s.len() && s.take(pat.len() as int) == pat {
        rep + replace_spec(s.skip(pat.len() as int), pat, rep)
    } else {
        seq![s[0]] + replace_spec(s.drop_first(), pat, rep)
    }
}

/// The pieces of `s` between occurrences of `sep`, as `str::split` yields
/// them: one more piece than there are separators.
pub open spec fn split_spec(s: Seq<char>, sep: char) -> Seq<Seq<char>>
    decreases s.len(),
{
    if s.len() == 0 {
        seq![Seq::<char>::empty()]
    } else {
        let pieces = split_spec(s.drop_last(), sep);
        if s.last() == sep {
            pieces.push(Seq::<char>::empty())
        } else {
            pieces.update(pieces.len() - 1, pieces.last().push(s.last()))
        }
    }
}

/// The piece of `s` after the last `sep` (all of `s` when there is none).
pub open spec fn last_piece(s: Seq<char>, sep: char) -> Seq<char> {
    split_spec(s, sep).last()
}

/// The piece of `s` before the first `sep` (all of `s` when there is none).
pub open spec fn first_piece(s: Seq<char>, sep: char) -> Seq<char> {
    split_spec(s, sep)[0]
}

/// The pieces joined back together with `sep` between each two.
pub open spec fn join_spec(pieces: Seq<Seq<char>>, sep: char) -> Seq<char>
    decreases pieces.len(),
{
    if pieces.len() == 0 {
        Seq::empty()
    } else if pieces.len() == 1 {
        pieces[0]
    } else {
        join_spec(pieces.drop_last(), sep).push(sep) + pieces.last()
    }
}

/// Every maximal run of characters outside `[a-zA-Z0-9]` replaced by `rep`:
/// what a replace-all of the pattern `[^a-zA-Z0-9]+` gives.
pub open spec fn collapse_non_alnum(s: Seq<char>, rep: Seq<char>) -> Seq<char>
    decreases s.len(),
{
    if s.len() == 0 {
        s
    } else if is_ascii_alnum(s[0]) {
        seq![s[0]] + collapse_non_alnum(s.drop_first(), rep)
    } else if s.len() > 1 && !is_ascii_alnum(s[1]) {
        collapse_non_alnum(s.drop_first(), rep)
    } else {
        rep + collapse_non_alnum(s.drop_first(), rep)
    }
}

pub proof fn lemma_split_nonempty(s: Seq<char>, sep: char)
    ensures
        split_spec(s, sep).len() >= 1,
    decreases s.len(),
{
    if s.len() > 0 {
        lemma_split_nonempty(s.drop_last(), sep);
    }
}

/// Trimming the end keeps a prefix and drops only whitespace; what it keeps
/// does not end in whitespace.
pub proof fn lemma_trim_end_prefix(s: Seq<char>)
    ensures
        trim_end_spec(s) == s.take(trim_end_spec(s).len() as int),
        trim_end_spec(s).len() <= s.len(),
        trim_end_spec(s).len() > 0 ==> !is_whitespace(trim_end_spec(s).last()),
        forall|i: int| 0 <= i < trim_end_spec(s).len() ==> #[trigger] trim_end_spec(s)[i] == s[i],
        forall|i: int| trim_end_spec(s).len() <= i < s.len() ==> is_whitespace(#[trigger] s[i]),
    decreases s.len(),
{
    if s.len() > 0 && is_whitespace(s.last()) {
        lemma_trim_end_prefix(s.drop_last());
        let t = trim_end_spec(s.drop_last());
        assert(s.drop_last().take(t.len() as int) =~= s.take(t.len() as int));
        assert forall|i: int| t.len() <= i < s.len() implies is_whitespace(#[trigger] s[i]) by {
            if i < s.len() - 1 {
                assert(s[i] == s.drop_last()[i]);
            }
        }
    } else {
        assert(s.take(s.len() as int) =~= s);
    }
}

/// Trimming the start keeps a suffix and drops only whitespace; what it
/// keeps does not start with whitespace.
pub proof fn lemma_trim_start_drops_whitespace(s: Seq<char>)
    ensures
        trim_start_spec(s).len() <= s.len(),
        trim_start_spec(s).len() > 0 ==> !is_whitespace(trim_start_spec(s)[0]),
        forall|i: int|
            0 <= i < trim_start_spec(s).len() ==> #[trigger] trim_start_spec(s)[i] == s[i + s.len()
                - trim_start_spec(s).len()],
        forall|i: int|
            0 <= i < s.len() - trim_start_spec(s).len() ==> is_whitespace(#[trigger] s[i]),
    decreases s.len(),
{
    if s.len() > 0 && is_whitespace(s[0]) {
        lemma_trim_start_drops_whitespace(s.drop_first());
        let t = trim_start_spec(s.drop_first());
        assert forall|i: int| 0 <= i < s.len() - t.len() implies is_whitespace(#[trigger] s[i]) by {
            if i > 0 {
                assert(s[i] == s.drop_first()[i - 1]);
            }
        }
    }
}

/// Whether `r` is `s` with its leading and trailing whitespace taken off and
/// nothing else: the stretch of `s` from its first to its last character
/// that is not whitespace, or nothing when `s` is all whitespace.
pub open spec fn is_trim_of(r: Seq<char>, s: Seq<char>) -> bool {
    exists|lo: int, hi: int|
        #![trigger s.subrange(lo, hi)]
        {
            &&& 0 <= lo <= hi <= s.len()
            &&& r == s.subrange(lo, hi)
            &&& forall|k: int| 0 <= k < lo ==> is_whitespace(#[trigger] s[k])
            &&& forall|k: int| hi <= k < s.len() ==> is_whitespace(#[trigger] s[k])
            &&& lo < hi ==> !is_whitespace(s[lo]) && !is_whitespace(s[hi - 1])
        }
}

/// Trimming takes off the leading and trailing whitespace and keeps all that
/// lies between, inner whitespace included.
pub proof fn lemma_trim_is_trim_of(s: Seq<char>)
    ensures
        is_trim_of(trim_spec(s), s),
{
    let e = trim_end_spec(s);
    lemma_trim_end_prefix(s);
    lemma_trim_start_drops_whitespace(e);
    let t = trim_start_spec(e);
    let lo = e.len() - t.len();
    let hi = e.len() as int;
    assert(t =~= s.subrange(lo, hi)) by {
        assert forall|i: int| 0 <= i < t.len() implies #[trigger] t[i] == s.subrange(lo, hi)[i] by {
            assert(t[i] == e[i + lo]);
            assert(e[i + lo] == s[i + lo]);
        }
    }
    assert forall|k: int| 0 <= k < lo implies is_whitespace(#[trigger] s[k]) by {
        assert(is_whitespace(e[k]));
        assert(e[k] == s[k]);
    }
    if lo < hi {
        assert(t[0] == e[lo]);
        assert(e[lo] == s[lo]);
        assert(e.last() == s[hi - 1]);
    }
}

/// Splitting loses nothing and keeps no separator: joining the pieces with
/// `sep` gives `s` back, and no piece holds `sep`.
pub proof fn lemma_split_join(s: Seq<char>, sep: char)
    ensures
        join_spec(split_spec(s, sep), sep) == s,
        forall|k: int, i: int|
            0 <= k < split_spec(s, sep).len() && 0 <= i < split_spec(s, sep)[k].len()
                ==> #[trigger] split_spec(s, sep)[k][i] != sep,
    decreases s.len(),
{
    if s.len() == 0 {
        assert(split_spec(s, sep)[0] =~= s);
    } else {
        let rest = s.drop_last();
        let before = split_spec(rest, sep);
        let c = s.last();
        lemma_split_join(rest, sep);
        lemma_split_nonempty(rest, sep);
        let pieces = split_spec(s, sep);
        if c == sep {
            assert(pieces == before.push(Seq::<char>::empty()));
            assert(pieces.drop_last() =~= before);
            assert(join_spec(pieces, sep) == join_spec(before, sep).push(sep) + Seq::<char>::empty());
            assert(join_spec(pieces, sep) =~= s);
            assert forall|k: int, i: int|
                0 <= k < pieces.len() && 0 <= i < pieces[k].len() implies #[trigger] pieces[k][i]
                != sep by {
                assert(k < before.len());
                assert(pieces[k] == before[k]);
            }
        } else {
            let n = before.len() - 1;
            assert(pieces == before.update(n, before.last().push(c)));
            if before.len() == 1 {
                assert(join_spec(before, sep) == before[0]);
                assert(join_spec(pieces, sep) == pieces[0]);
                assert(pieces[0] =~= s);
            } else {
                assert(pieces.drop_last() =~= before.drop_last());
                assert(join_spec(pieces, sep) == join_spec(before.drop_last(), sep).push(sep)
                    + before.last().push(c));
                assert(join_spec(before, sep) == join_spec(before.drop_last(), sep).push(sep)
                    + before.last());
                assert(join_spec(pieces, sep) =~= join_spec(before, sep).push(c));
            }
            assert(join_spec(pieces, sep) =~= s);
            assert forall|k: int, i: int|
                0 <= k < pieces.len() && 0 <= i < pieces[k].len() implies #[trigger] pieces[k][i]
                != sep by {
                if k < n {
                    assert(pieces[k] == before[k]);
                } else if i < before[n].len() {
                    assert(pieces[k][i] == before[n][i]);
                }
            }
        }
    }
}

/// There is one piece exactly when `s` holds no separator.
proof fn lemma_split_single(s: Seq<char>, sep: char)
    ensures
        split_spec(s, sep).len() == 1 <==> forall|i: int| 0 <= i < s.len() ==> s[i] != sep,
    decreases s.len(),
{
    if s.len() > 0 {
        let rest = s.drop_last();
        lemma_split_single(rest, sep);
        lemma_split_nonempty(rest, sep);
        if s.last() != sep {
            assert(forall|i: int| 0 <= i < rest.len() ==> rest[i] == s[i]);
            assert((forall|i: int| 0 <= i < rest.len() ==> rest[i] != sep) <==> (forall|i: int|
                0 <= i < s.len() ==> s[i] != sep)) by {
                if forall|i: int| 0 <= i < rest.len() ==> rest[i] != sep {
                    assert forall|i: int| 0 <= i < s.len() implies s[i] != sep by {
                        if i < rest.len() {
                            assert(rest[i] != sep);
                        }
                    }
                }
            }
        } else {
            assert(s[s.len() - 1] == sep);
        }
    }
}

/// The first piece is `s` up to its first separator: all of `s` when it has
/// none.
pub proof fn lemma_first_piece(s: Seq<char>, sep: char)
    ensures
        exists|k: int|
            #![trigger s.take(k)]
            {
                &&& 0 <= k <= s.len()
                &&& first_piece(s, sep) == s.take(k)
                &&& forall|i: int| 0 <= i < k ==> s[i] != sep
                &&& k < s.len() ==> s[k] == sep
            },
    decreases s.len(),
{
    if s.len() == 0 {
        assert(first_piece(s, sep) =~= s.take(0));
    } else {
        let rest = s.drop_last();
        let before = split_spec(rest, sep);
        lemma_first_piece(rest, sep);
        lemma_split_nonempty(rest, sep);
        lemma_split_single(rest, sep);
        let k = choose|k: int|
            #![trigger rest.take(k)]
            {
                &&& 0 <= k <= rest.len()
                &&& first_piece(rest, sep) == rest.take(k)
                &&& forall|i: int| 0 <= i < k ==> rest[i] != sep
                &&& k < rest.len() ==> rest[k] == sep
            };
        assert(rest.take(k) =~= s.take(k));
        assert(forall|i: int| 0 <= i < rest.len() ==> rest[i] == s[i]);
        if k < rest.len() {
            assert(before.len() != 1);
            if s.last() == sep {
                assert(split_spec(s, sep)[0] == before[0]);
            } else {
                assert(split_spec(s, sep)[0] == before[0]);
            }
        } else {
            assert(before.len() == 1);
            if s.last() == sep {
                assert(split_spec(s, sep)[0] == before[0]);
            } else {
                assert(split_spec(s, sep)[0] == before[0].push(s.last()));
                assert(s.take(k).push(s.last()) =~= s.take(k + 1));
                assert(s.take(k + 1) =~= s);
            }
        }
    }
}

/// Removing every occurrence of the one-character pattern `c` keeps every
/// other character, in order.
pub proof fn lemma_replace_char_removed(s: Seq<char>, c: char)
    ensures
        replace_spec(s, seq![c], Seq::<char>::empty()) == s.filter(|x: char| x != c),
    decreases s.len(),
{
    let pred = |x: char| x != c;
    if s.len() == 0 {
        reveal(Seq::filter);
    } else {
        let rest = s.drop_first();
        lemma_replace_char_removed(rest, c);
        assert(s =~= seq![s[0]] + rest);
        Seq::filter_distributes_over_add(seq![s[0]], rest, pred);
        reveal_with_fuel(Seq::filter, 2);
        let head = seq![s[0]];
        assert(head.drop_last() =~= Seq::<char>::empty());
        if s[0] == c {
            assert(s.take(1) =~= seq![c]);
            assert(s.skip(1) =~= rest);
            assert(head.filter(pred) =~= Seq::<char>::empty());
            assert(s.filter(pred) =~= rest.filter(pred));
        } else {
            assert(s.take(1) != seq![c]) by {
                assert(s.take(1)[0] != seq![c][0]);
            }
            assert(head.filter(pred) =~= head);
        }
    }
}

/// The last piece is `s` after its last separator: all of `s` when it has
/// none.
pub proof fn lemma_last_piece(s: Seq<char>, sep: char)
    ensures
        last_piece(s, sep).len() <= s.len(),
        last_piece(s, sep) == s.skip(s.len() - last_piece(s, sep).len()),
        forall|i: int| s.len() - last_piece(s, sep).len() <= i < s.len() ==> #[trigger] s[i] != sep,
        last_piece(s, sep).len() < s.len() ==> s[s.len() - last_piece(s, sep).len() - 1] == sep,
    decreases s.len(),
{
    if s.len() == 0 {
        assert(last_piece(s, sep) =~= s.skip(0));
    } else {
        let rest = s.drop_last();
        lemma_last_piece(rest, sep);
        lemma_split_nonempty(rest, sep);
        let before = split_spec(rest, sep);
        if s.last() == sep {
            assert(last_piece(s, sep) =~= Seq::<char>::empty());
            assert(s.skip(s.len() as int) =~= Seq::<char>::empty());
        } else {
            assert(last_piece(s, sep) == before.last().push(s.last()));
            let n = last_piece(rest, sep).len();
            assert(forall|i: int| 0 <= i < rest.len() ==> rest[i] == s[i]);
            assert(last_piece(s, sep) =~= s.skip(s.len() - (n + 1)));
        }
    }
}

/// A string made of exactly the characters of `cs`.
#[verifier::external_body]
pub(crate) fn string_from_chars(cs: &Vec<char>) -> (res: String)
    ensures
        res@ == cs@,
{
    cs.iter().collect()
}

/// The characters of `s`, in order.
pub fn chars_of(s: &str) -> (res: Vec<char>)
    ensures
        res@ == s@,
{
    let mut out: Vec<char> = Vec::new();
    for c in it: s.chars()
        invariant
            out@ == it.seq().take(it.index() as int),
    {
        out.push(c);
    }
    out
}

/// Whether `c` is whitespace in the sense of `char::is_whitespace`.
pub fn char_is_whitespace(c: char) -> (res: bool)
    ensures
        res == is_whitespace(c),
{
    ('\u{9}' <= c && c <= '\u{d}') || c == ' ' || c == '\u{85}' || c == '\u{a0}' || c
        == '\u{1680}' || ('\u{2000}' <= c && c <= '\u{200a}') || c == '\u{2028}' || c
        == '\u{2029}' || c == '\u{202f}' || c == '\u{205f}' || c == '\u{3000}'
}

/// The characters of `v` from `lo` up to `hi`.
fn copy_range(v: &Vec<char>, lo: usize, hi: usize) -> (res: Vec<char>)
    requires
        lo <= hi <= v.len(),
    ensures
        res@ == v@.subrange(lo as int, hi as int),
{
    let mut out: Vec<char> = Vec::new();
    let mut i = lo;
    while i < hi
        invariant
            lo <= i <= hi <= v.len(),
            out@ == v@.subrange(lo as int, i as int),
        decreases hi - i,
    {
        out.push(v[i]);
        i += 1;
        assert(out@ =~= v@.subrange(lo as int, i as int));
    }
    out
}

/// `v` without leading and trailing whitespace.
pub fn trim_chars(v: &Vec<char>) -> (res: Vec<char>)
    ensures
        res@ == trim_spec(v@),
{
    let mut hi = v.len();
    assert(v@.take(hi as int) =~= v@);
    while hi > 0 && char_is_whitespace(v[hi - 1])
        invariant
            hi <= v.len(),
            trim_end_spec(v@.take(hi as int)) == trim_end_spec(v@),
        decreases hi,
    {
        assert(v@.take(hi as int).drop_last() =~= v@.take(hi - 1));
        hi -= 1;
    }
    let mut lo: usize = 0;
    while lo < hi && char_is_whitespace(v[lo])
        invariant
            lo <= hi <= v.len(),
            trim_end_spec(v@.take(hi as int)) == trim_end_spec(v@),
            trim_start_spec(v@.subrange(lo as int, hi as int)) == trim_start_spec(v@.take(hi as int)),
        decreases hi - lo,
    {
        assert(v@.subrange(lo as int, hi as int).drop_first() =~= v@.subrange(lo + 1, hi as int));
        lo += 1;
    }
    proof {
        assert(trim_end_spec(v@.take(hi as int)) == v@.take(hi as int));
        assert(v@.subrange(0, hi as int) =~= v@.take(hi as int));
        assert(trim_start_spec(v@.subrange(lo as int, hi as int)) == v@.subrange(lo as int, hi as int));
    }
    copy_range(v, lo, hi)
}

/// `s` without leading and trailing whitespace, as `str::trim` gives it.
pub fn trim(s: &str) -> (res: String)
    ensures
        res@ == trim_spec(s@),
        is_trim_of(res@, s@),
{
    proof {
        lemma_trim_is_trim_of(s@);
    }
    let v = chars_of(s);
    let t = trim_chars(&v);
    string_from_chars(&t)
}

/// `s` without trailing whitespace, as `str::trim_end` gives it.
pub fn trim_end(s: &str) -> (res: String)
    ensures
        res@ == trim_end_spec(s@),
        res@ == s@.take(res@.len() as int),
        forall|i: int| res@.len() <= i < s@.len() ==> is_whitespace(#[trigger] s@[i]),
        res@.len() > 0 ==> !is_whitespace(res@.last()),
{
    proof {
        lemma_trim_end_prefix(s@);
    }
    let v = chars_of(s);
    let mut hi = v.len();
    assert(v@.take(hi as int) =~= v@);
    while hi > 0 && char_is_whitespace(v[hi - 1])
        invariant
            hi <= v.len(),
            v@ == s@,
            trim_end_spec(v@.take(hi as int)) == trim_end_spec(v@),
        decreases hi,
    {
        assert(v@.take(hi as int).drop_last() =~= v@.take(hi - 1));
        hi -= 1;
    }
    assert(v@.subrange(0, hi as int) =~= v@.take(hi as int));
    let t = copy_range(&v, 0, hi);
    string_from_chars(&t)
}

/// Whether `pat` occurs in `v` at position `at`.
fn occurs_at(v: &Vec<char>, pat: &Vec<char>, at: usize) -> (res: bool)
    requires
        at <= v.len(),
    ensures
        res == (pat.len() <= v.len() - at && v@.skip(at as int).take(pat.len() as int) == pat@),
{
    if pat.len() > v.len() - at {
        return false;
    }
    let mut j: usize = 0;
    while j < pat.len()
        invariant
            at + pat.len() <= v.len(),
            j <= pat.len(),
            forall|k: int| 0 <= k < j ==> v@[at + k] == pat@[k],
        decreases pat.len() - j,
    {
        if v[at + j] != pat[j] {
            assert(v@.skip(at as int).take(pat.len() as int)[j as int] != pat@[j as int]);
            return false;
        }
        j += 1;
    }
    assert(v@.skip(at as int).take(pat.len() as int) =~= pat@);
    true
}

/// `v` with every non-overlapping occurrence of `pat`, from the left,
/// replaced by `rep`.
pub fn replace_chars(v: &Vec<char>, pat: &Vec<char>, rep: &Vec<char>) -> (res: Vec<char>)
    ensures
        res@ == replace_spec(v@, pat@, rep@),
{
    let mut out: Vec<char> = Vec::new();
    let mut i: usize = 0;
    assert(v@.skip(0) =~= v@);
    assert(out@ + replace_spec(v@, pat@, rep@) =~= replace_spec(v@, pat@, rep@));
    while i < v.len()
        invariant
            i <= v.len(),
            out@ + replace_spec(v@.skip(i as int), pat@, rep@) == replace_spec(v@, pat@, rep@),
        decreases v.len() - i,
    {
        let ghost rest = v@.skip(i as int);
        if pat.len() > 0 && occurs_at(v, pat, i) {
            let mut k: usize = 0;
            let ghost before = out@;
            while k < rep.len()
                invariant
                    k <= rep.len(),
                    out@ == before + rep@.take(k as int),
                decreases rep.len() - k,
            {
                out.push(rep[k]);
                k += 1;
                assert(out@ =~= before + rep@.take(k as int));
            }
            assert(rep@.take(rep.len() as int) =~= rep@);
            assert(rest.skip(pat.len() as int) =~= v@.skip(i + pat.len()));
            i += pat.len();
            assert(out@ + replace_spec(v@.skip(i as int), pat@, rep@) =~= before + (rep@
                + replace_spec(rest.skip(pat@.len() as int), pat@, rep@)));
        } else {
            let ghost before = out@;
            out.push(v[i]);
            assert(rest.drop_first() =~= v@.skip(i + 1));
            i += 1;
            assert(out@ + replace_spec(v@.skip(i as int), pat@, rep@) =~= before + (seq![rest[0]]
                + replace_spec(rest.drop_first(), pat@, rep@)));
        }
    }
    assert(v@.skip(i as int) =~= Seq::<char>::empty());
    assert(out@ + Seq::<char>::empty() =~= out@);
    out
}

/// `s` with every non-overlapping occurrence of `pat`, from the left,
/// replaced by `rep`, as `str::replace` gives it for a non-empty `pat`.
pub fn replace(s: &str, pat: &str, rep: &str) -> (res: String)
    requires
        pat@.len() > 0,
    ensures
        res@ == replace_spec(s@, pat@, rep@),
{
    let v = chars_of(s);
    let p = chars_of(pat);
    let r = chars_of(rep);
    let out = replace_chars(&v, &p, &r);
    string_from_chars(&out)
}

/// The pieces of `s` between occurrences of `sep`, as `str::split` yields them.
pub fn split(s: &str, sep: char) -> (res: Vec<String>)
    ensures
        res@.map_values(|t: String| t@) == split_spec(s@, sep),
        join_spec(res@.map_values(|t: String| t@), sep) == s@,
        forall|k: int, i: int|
            0 <= k < res@.len() && 0 <= i < res@[k]@.len() ==> #[trigger] res@[k]@[i] != sep,
{
    let v = chars_of(s);
    let mut out: Vec<String> = Vec::new();
    let mut cur: Vec<char> = Vec::new();
    let mut i: usize = 0;
    while i < v.len()
        invariant
            i <= v.len(),
            v@ == s@,
            out@.map_values(|t: String| t@).push(cur@) == split_spec(v@.take(i as int), sep),
        decreases v.len() - i,
    {
        let ghost pre = v@.take(i as int);
        let ghost pieces = split_spec(pre, sep);
        assert(v@.take(i + 1).drop_last() =~= pre);
        assert(v@.take(i + 1).last() == v@[i as int]);
        if v[i] == sep {
            let piece = string_from_chars(&cur);
            out.push(piece);
            cur = Vec::new();
            assert(out@.map_values(|t: String| t@) =~= pieces);
        } else {
            let ghost old_out = out@.map_values(|t: String| t@);
            cur.push(v[i]);
            assert(old_out.push(cur@) =~= pieces.update(pieces.len() - 1, pieces.last().push(v@[i as int])));
        }
        i += 1;
        assert(out@.map_values(|t: String| t@).push(cur@) == split_spec(v@.take(i as int), sep));
    }
    let last = string_from_chars(&cur);
    out.push(last);
    assert(v@.take(i as int) =~= v@);
    assert(out@.map_values(|t: String| t@) =~= split_spec(s@, sep));
    proof {
        lemma_split_join(s@, sep);
        assert forall|k: int, i: int|
            0 <= k < out@.len() && 0 <= i < out@[k]@.len() implies #[trigger] out@[k]@[i] != sep by {
            assert(out@[k]@ == split_spec(s@, sep)[k]);
        }
    }
    out
}

/// The piece of `s` after the last `sep`: what `s.split(sep).last()` gives.
pub fn last_segment(s: &str, sep: char) -> (res: String)
    ensures
        res@ == last_piece(s@, sep),
        res@.len() <= s@.len(),
        res@ == s@.skip(s@.len() - res@.len()),
        forall|i: int| s@.len() - res@.len() <= i < s@.len() ==> #[trigger] s@[i] != sep,
        res@.len() < s@.len() ==> s@[s@.len() - res@.len() - 1] == sep,
{
    proof {
        lemma_last_piece(s@, sep);
    }
    let mut pieces = split(s, sep);
    proof {
        lemma_split_nonempty(s@, sep);
    }
    let ghost view = pieces@.map_values(|t: String| t@);
    assert(view.len() == pieces@.len());
    let last = pieces.pop().unwrap();
    assert(view[view.len() - 1] == last@);
    last
}

/// The piece of `s` before the first `sep`: what `s.split(sep).next()` gives.
pub fn first_segment(s: &str, sep: char) -> (res: String)
    ensures
        res@ == first_piece(s@, sep),
        res@.len() <= s@.len(),
        res@ == s@.take(res@.len() as int),
        forall|i: int| 0 <= i < res@.len() ==> s@[i] != sep,
        res@.len() < s@.len() ==> s@[res@.len() as int] == sep,
{
    proof {
        lemma_first_piece(s@, sep);
    }
    let mut pieces = split(s, sep);
    proof {
        lemma_split_nonempty(s@, sep);
    }
    let ghost view = pieces@.map_values(|t: String| t@);
    assert(view.len() == pieces@.len());
    assert(view[0] == pieces@[0]@);
    pieces.swap_remove(0)
}

} // verus!
