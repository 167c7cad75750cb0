//! The Sanity content API: the file names that uploaded images get, the
//! request URLs, and what a response status means.
use vstd::prelude::*;
use vstd::string::*;

use crate::text::{
    collapse_non_alnum, is_ascii_alnum, last_piece, last_segment, replace, replace_spec, trim,
    trim_end, trim_end_spec, trim_spec, trim_start_spec, is_whitespace, lemma_trim_end_prefix,
    lemma_trim_start_drops_whitespace, lemma_trim_is_trim_of,
};

verus! {

/// A video document of the Sanity dataset.
pub struct SanityVideo {
    pub url: String,
    pub views: i32,
    pub video_duration: i32,
    pub _id: String,
}

/// The regular expression of a run of characters that are no ASCII letter
/// or digit.
pub open spec fn non_alnum_run_pattern() -> Seq<char> {
    "[^a-zA-Z0-9]+"@
}

/// `regex::Regex::new(pattern)` and `Regex::replace_all(text,
/// NoExpand(rep))`, for the one pattern `[^a-zA-Z0-9]+`: the regex
/// documentation gives leftmost, non-overlapping, greedy matches, so every
/// maximal run of characters outside `[a-zA-Z0-9]` is replaced by `rep`,
/// taken literally. The pattern compiles, so `Regex::new` does not fail.
#[verifier::external_body]
pub(crate) fn replace_non_alnum_runs(pattern: &str, text: &str, rep: &str) -> (res: String)
    requires
        pattern@ == non_alnum_run_pattern(),
    ensures
        res@ == collapse_non_alnum(text@, rep@),
{
    let re = regex::Regex::new(pattern).unwrap();
    re.replace_all(text, regex::NoExpand(rep)).into_owned()
}

/// The part of an image's file name that comes from the post title: the
/// trimmed title with every run of characters that are no ASCII letter or
/// digit turned into one space, trailing spaces cut, and spaces turned into
/// dashes.
pub open spec fn title_part_spec(title: Seq<char>) -> Seq<char> {
    replace_spec(trim_end_spec(collapse_non_alnum(trim_spec(title), " "@)), " "@, "-"@)
}

/// The file name under which an image is uploaded: the title part, a dash,
/// the last path segment of the image's source URL, a dot, and the subtype
/// of its content type (what follows the last `/`).
pub open spec fn file_name_spec(title: Seq<char>, source: Seq<char>, content_type: Seq<char>) -> Seq<
    char,
> {
    title_part_spec(title) + "-"@ + last_piece(source, '/') + "."@ + last_piece(content_type, '/')
}

/// The part of an image's file name that comes from the post title.
pub fn title_part(title: &str) -> (res: String)
    ensures
        res@ == title_part_spec(title@),
{
    proof {
        reveal_strlit(" ");
    }
    let trimmed = trim(title);
    let spaced = replace_non_alnum_runs("[^a-zA-Z0-9]+", trimmed.as_str(), " ");
    let cut = trim_end(spaced.as_str());
    replace(cut.as_str(), " ", "-")
}

/// The file name under which the image at `source`, of content type
/// `content_type`, is uploaded for the post titled `title`.
pub fn sanity_file_name(title: &str, source: &str, content_type: &str) -> (res: String)
    ensures
        res@ == file_name_spec(title@, source@, content_type@),
        res@ == title_part_spec(title@) + "-"@ + last_piece(source@, '/') + "."@ + last_piece(
            content_type@,
            '/',
        ),
{
    let mut name = title_part(title);
    name.append("-");
    let file = last_segment(source, '/');
    name.append(file.as_str());
    name.append(".");
    let subtype = last_segment(content_type, '/');
    name.append(subtype.as_str());
    name
}

/// The characters that the title part of a file name holds.
pub open spec fn is_name_char(c: char) -> bool {
    is_ascii_alnum(c) || c == '-'
}

proof fn lemma_collapse_chars(s: Seq<char>)
    ensures
        forall|i: int|
            0 <= i < collapse_non_alnum(s, " "@).len() ==> #[trigger] collapse_non_alnum(
                s,
                " "@,
            )[i] == ' ' || is_ascii_alnum(collapse_non_alnum(s, " "@)[i]),
    decreases s.len(),
{
    reveal_strlit(" ");
    assert(" "@ =~= seq![' ']);
    if s.len() > 0 {
        lemma_collapse_chars(s.drop_first());
        let r = collapse_non_alnum(s.drop_first(), " "@);
        let c = collapse_non_alnum(s, " "@);
        if is_ascii_alnum(s[0]) {
            assert(c == seq![s[0]] + r);
            assert forall|i: int| 0 <= i < c.len() implies #[trigger] c[i] == ' ' || is_ascii_alnum(
                c[i],
            ) by {
                if i > 0 {
                    assert(c[i] == r[i - 1]);
                }
            }
        } else if s.len() > 1 && !is_ascii_alnum(s[1]) {
            assert(c == r);
        } else {
            assert(c == seq![' '] + r);
            assert forall|i: int| 0 <= i < c.len() implies #[trigger] c[i] == ' ' || is_ascii_alnum(
                c[i],
            ) by {
                if i > 0 {
                    assert(c[i] == r[i - 1]);
                }
            }
        }
    }
}

/// Replacing a single character by another changes those characters one
/// for one.
proof fn lemma_replace_char(s: Seq<char>, a: char, b: char)
    ensures
        replace_spec(s, seq![a], seq![b]).len() == s.len(),
        forall|i: int|
            0 <= i < s.len() ==> #[trigger] replace_spec(s, seq![a], seq![b])[i] == if s[i] == a {
                b
            } else {
                s[i]
            },
    decreases s.len(),
{
    if s.len() > 0 {
        lemma_replace_char(s.drop_first(), a, b);
        let r = replace_spec(s.drop_first(), seq![a], seq![b]);
        let full = replace_spec(s, seq![a], seq![b]);
        if s.take(1) == seq![a] {
            assert(s.skip(1) =~= s.drop_first());
            assert(full == seq![b] + r);
            assert(s[0] == a) by {
                assert(s.take(1)[0] == s[0]);
            }
        } else {
            assert(s[0] != a) by {
                if s[0] == a {
                    assert(s.take(1) =~= seq![a]);
                }
            }
            assert(full == seq![s[0]] + r);
        }
        assert forall|i: int| 0 <= i < s.len() implies #[trigger] replace_spec(
            s,
            seq![a],
            seq![b],
        )[i] == if s[i] == a {
            b
        } else {
            s[i]
        } by {
            if i > 0 {
                assert(s.drop_first()[i - 1] == s[i]);
                assert(full[i] == r[i - 1]);
            }
        }
    }
}

/// The title part of a file name holds only ASCII letters, digits and
/// dashes, and does not end with a dash.
pub proof fn lemma_title_part_chars(title: Seq<char>)
    ensures
        forall|i: int|
            0 <= i < title_part_spec(title).len() ==> is_name_char(
                #[trigger] title_part_spec(title)[i],
            ),
        title_part_spec(title).len() > 0 ==> title_part_spec(title).last() != '-',
{
    reveal_strlit(" ");
    reveal_strlit("-");
    let c = collapse_non_alnum(trim_spec(title), " "@);
    lemma_collapse_chars(trim_spec(title));
    lemma_trim_end_prefix(c);
    let t = trim_end_spec(c);
    assert(" "@ == seq![' ']);
    assert("-"@ == seq!['-']);
    lemma_replace_char(t, ' ', '-');
    let r = title_part_spec(title);
    assert(r == replace_spec(t, seq![' '], seq!['-']));
    assert forall|i: int| 0 <= i < r.len() implies is_name_char(#[trigger] r[i]) by {
        assert(t[i] == c[i]);
    }
    if r.len() > 0 {
        let k = t.len() - 1;
        assert(t[k] == c[k]);
        assert(r[k] == r.last());
    }
}

/// A replace-all of the runs gives no two spaces in a row.
proof fn lemma_collapse_no_double_space(s: Seq<char>)
    ensures
        forall|i: int|
            0 <= i < collapse_non_alnum(s, " "@).len() - 1 && #[trigger] collapse_non_alnum(
                s,
                " "@,
            )[i] == ' ' ==> collapse_non_alnum(s, " "@)[i + 1] != ' ',
    decreases s.len(),
{
    reveal_strlit(" ");
    assert(" "@ =~= seq![' ']);
    if s.len() > 0 {
        lemma_collapse_no_double_space(s.drop_first());
        let t = s.drop_first();
        let r = collapse_non_alnum(t, " "@);
        let c = collapse_non_alnum(s, " "@);
        if is_ascii_alnum(s[0]) {
            assert(c == seq![s[0]] + r);
            assert forall|i: int| 0 <= i < c.len() - 1 && #[trigger] c[i] == ' ' implies c[i + 1]
                != ' ' by {
                assert(i > 0);
                assert(c[i] == r[i - 1]);
                assert(c[i + 1] == r[i]);
            }
        } else if s.len() > 1 && !is_ascii_alnum(s[1]) {
            assert(c == r);
        } else {
            assert(c == seq![' '] + r);
            if t.len() > 0 {
                assert(is_ascii_alnum(t[0]));
                assert(r == seq![t[0]] + collapse_non_alnum(t.drop_first(), " "@));
                assert(r[0] == t[0]);
            }
            assert forall|i: int| 0 <= i < c.len() - 1 && #[trigger] c[i] == ' ' implies c[i + 1]
                != ' ' by {
                assert(c[i + 1] == r[i]);
                if i > 0 {
                    assert(c[i] == r[i - 1]);
                }
            }
        }
    }
}

/// The title part of a file name never holds two dashes in a row: each run
/// of other characters becomes one dash.
pub proof fn lemma_title_part_single_dashes(title: Seq<char>)
    ensures
        forall|i: int|
            0 <= i < title_part_spec(title).len() - 1 && #[trigger] title_part_spec(title)[i]
                == '-' ==> title_part_spec(title)[i + 1] != '-',
{
    reveal_strlit(" ");
    reveal_strlit("-");
    let c = collapse_non_alnum(trim_spec(title), " "@);
    lemma_collapse_chars(trim_spec(title));
    lemma_collapse_no_double_space(trim_spec(title));
    lemma_trim_end_prefix(c);
    let t = trim_end_spec(c);
    assert(" "@ == seq![' ']);
    assert("-"@ == seq!['-']);
    lemma_replace_char(t, ' ', '-');
    let r = title_part_spec(title);
    assert(r == replace_spec(t, seq![' '], seq!['-']));
    assert forall|i: int| 0 <= i < r.len() - 1 && #[trigger] r[i] == '-' implies r[i + 1]
        != '-' by {
        assert(t[i] == c[i]);
        assert(t[i + 1] == c[i + 1]);
        assert(r[i + 1] == if t[i + 1] == ' ' { '-' } else { t[i + 1] });
    }
}

/// Whether `s` holds an ASCII letter or digit.
pub open spec fn has_ascii_alnum(s: Seq<char>) -> bool {
    exists|i: int| 0 <= i < s.len() && #[trigger] is_ascii_alnum(s[i])
}

/// Trimming keeps every ASCII letter and digit.
proof fn lemma_trim_keeps_alnum(s: Seq<char>)
    ensures
        has_ascii_alnum(trim_spec(s)) == has_ascii_alnum(s),
{
    let e = trim_end_spec(s);
    lemma_trim_end_prefix(s);
    lemma_trim_start_drops_whitespace(e);
    let t = trim_start_spec(e);
    if has_ascii_alnum(s) {
        let i = choose|i: int| 0 <= i < s.len() && #[trigger] is_ascii_alnum(s[i]);
        assert(i < e.len());
        assert(e[i] == s[i]);
        assert(i >= e.len() - t.len());
        let j = i - (e.len() - t.len());
        assert(t[j] == e[i]);
        assert(is_ascii_alnum(t[j]));
    }
    if has_ascii_alnum(t) {
        let j = choose|j: int| 0 <= j < t.len() && #[trigger] is_ascii_alnum(t[j]);
        let i = j + e.len() - t.len();
        assert(t[j] == e[i]);
        assert(e[i] == s[i]);
        assert(is_ascii_alnum(s[i]));
    }
}

/// Collapsing the runs keeps every ASCII letter and digit.
proof fn lemma_collapse_keeps_alnum(s: Seq<char>)
    ensures
        has_ascii_alnum(collapse_non_alnum(s, " "@)) == has_ascii_alnum(s),
    decreases s.len(),
{
    reveal_strlit(" ");
    assert(" "@ =~= seq![' ']);
    if s.len() > 0 {
        lemma_collapse_keeps_alnum(s.drop_first());
        let t = s.drop_first();
        let r = collapse_non_alnum(t, " "@);
        let c = collapse_non_alnum(s, " "@);
        if is_ascii_alnum(s[0]) {
            assert(c == seq![s[0]] + r);
            assert(is_ascii_alnum(c[0]));
            assert(is_ascii_alnum(s[0]));
        } else {
            if has_ascii_alnum(s) {
                let i = choose|i: int| 0 <= i < s.len() && #[trigger] is_ascii_alnum(s[i]);
                assert(i > 0);
                assert(t[i - 1] == s[i]);
                assert(is_ascii_alnum(t[i - 1]));
            }
            if has_ascii_alnum(t) {
                let i = choose|i: int| 0 <= i < t.len() && #[trigger] is_ascii_alnum(t[i]);
                assert(s[i + 1] == t[i]);
            }
            if s.len() > 1 && !is_ascii_alnum(s[1]) {
                assert(c == r);
            } else {
                assert(c == seq![' '] + r);
                if has_ascii_alnum(c) {
                    let i = choose|i: int| 0 <= i < c.len() && #[trigger] is_ascii_alnum(c[i]);
                    assert(i > 0);
                    assert(r[i - 1] == c[i]);
                }
                if has_ascii_alnum(r) {
                    let i = choose|i: int| 0 <= i < r.len() && #[trigger] is_ascii_alnum(r[i]);
                    assert(c[i + 1] == r[i]);
                }
            }
        }
    }
}

/// The title part of a file name is empty exactly when the title holds no
/// ASCII letter or digit.
pub proof fn lemma_title_part_empty(title: Seq<char>)
    ensures
        title_part_spec(title).len() == 0 <==> !has_ascii_alnum(title),
{
    reveal_strlit(" ");
    reveal_strlit("-");
    let c = collapse_non_alnum(trim_spec(title), " "@);
    lemma_trim_keeps_alnum(title);
    lemma_collapse_keeps_alnum(trim_spec(title));
    lemma_collapse_chars(trim_spec(title));
    lemma_trim_end_prefix(c);
    let t = trim_end_spec(c);
    assert(" "@ == seq![' ']);
    assert("-"@ == seq!['-']);
    lemma_replace_char(t, ' ', '-');
    assert(title_part_spec(title) == replace_spec(t, seq![' '], seq!['-']));
    if t.len() == 0 {
        if has_ascii_alnum(c) {
            let i = choose|i: int| 0 <= i < c.len() && #[trigger] is_ascii_alnum(c[i]);
            assert(is_whitespace(c[i]));
        }
    } else {
        let k = t.len() - 1;
        assert(t[k] == c[k]);
        assert(!is_whitespace(t.last()));
        assert(c[k] == ' ' || is_ascii_alnum(c[k]));
        assert(is_ascii_alnum(c[k]));
    }
}

/// The ASCII letters and digits of `s`, in order.
pub open spec fn alnum_chars(s: Seq<char>) -> Seq<char> {
    s.filter(|c: char| is_ascii_alnum(c))
}

proof fn lemma_alnum_chars_none(s: Seq<char>)
    requires
        forall|i: int| 0 <= i < s.len() ==> !is_ascii_alnum(#[trigger] s[i]),
    ensures
        alnum_chars(s) == Seq::<char>::empty(),
    decreases s.len(),
{
    reveal(Seq::filter);
    if s.len() > 0 {
        let rest = s.drop_last();
        assert(forall|i: int| 0 <= i < rest.len() ==> #[trigger] rest[i] == s[i]);
        lemma_alnum_chars_none(rest);
        assert(!is_ascii_alnum(s[s.len() - 1]));
    }
}

proof fn lemma_alnum_chars_cons(s: Seq<char>)
    requires
        s.len() > 0,
    ensures
        alnum_chars(s) == if is_ascii_alnum(s[0]) {
            seq![s[0]] + alnum_chars(s.drop_first())
        } else {
            alnum_chars(s.drop_first())
        },
{
    let pred = |c: char| is_ascii_alnum(c);
    let head = seq![s[0]];
    assert(s =~= head + s.drop_first());
    Seq::filter_distributes_over_add(head, s.drop_first(), pred);
    reveal_with_fuel(Seq::filter, 2);
    assert(head.drop_last() =~= Seq::<char>::empty());
    if is_ascii_alnum(s[0]) {
        assert(head.filter(pred) =~= head);
    } else {
        assert(head.filter(pred) =~= Seq::<char>::empty());
        assert(alnum_chars(s) =~= alnum_chars(s.drop_first()));
    }
}

/// Two texts that agree, position by position, on which characters are
/// ASCII letters or digits and on those characters, have the same letters
/// and digits.
proof fn lemma_alnum_chars_pointwise(a: Seq<char>, b: Seq<char>)
    requires
        a.len() == b.len(),
        forall|i: int|
            0 <= i < a.len() ==> (is_ascii_alnum(#[trigger] a[i]) <==> is_ascii_alnum(b[i])),
        forall|i: int| 0 <= i < a.len() && is_ascii_alnum(#[trigger] a[i]) ==> a[i] == b[i],
    ensures
        alnum_chars(a) == alnum_chars(b),
    decreases a.len(),
{
    reveal(Seq::filter);
    if a.len() > 0 {
        let (ra, rb) = (a.drop_last(), b.drop_last());
        assert(forall|i: int| 0 <= i < ra.len() ==> #[trigger] ra[i] == a[i] && rb[i] == b[i]);
        lemma_alnum_chars_pointwise(ra, rb);
        assert(a.last() == a[a.len() - 1] && b.last() == b[b.len() - 1]);
    }
}

/// Dropping whitespace from both ends keeps every letter and digit.
proof fn lemma_alnum_chars_trim(s: Seq<char>)
    ensures
        alnum_chars(trim_spec(s)) == alnum_chars(s),
        alnum_chars(trim_end_spec(s)) == alnum_chars(s),
{
    let pred = |c: char| is_ascii_alnum(c);
    lemma_trim_is_trim_of(s);
    let (lo, hi) = choose|lo: int, hi: int|
        #![trigger s.subrange(lo, hi)]
        {
            &&& 0 <= lo <= hi <= s.len()
            &&& trim_spec(s) == s.subrange(lo, hi)
            &&& forall|k: int| 0 <= k < lo ==> is_whitespace(#[trigger] s[k])
            &&& forall|k: int| hi <= k < s.len() ==> is_whitespace(#[trigger] s[k])
            &&& lo < hi ==> !is_whitespace(s[lo]) && !is_whitespace(s[hi - 1])
        };
    let (front, mid, back) = (s.take(lo), s.subrange(lo, hi), s.skip(hi));
    assert(s =~= front + mid + back);
    Seq::filter_distributes_over_add(front + mid, back, pred);
    Seq::filter_distributes_over_add(front, mid, pred);
    lemma_alnum_chars_none(front);
    lemma_alnum_chars_none(back);
    assert(alnum_chars(s) =~= alnum_chars(mid));
    lemma_trim_end_prefix(s);
    let e = trim_end_spec(s);
    let tail = s.skip(e.len() as int);
    assert(s =~= e + tail);
    Seq::filter_distributes_over_add(e, tail, pred);
    lemma_alnum_chars_none(tail);
    assert(alnum_chars(s) =~= alnum_chars(e));
}

/// Turning the runs of other characters into spaces keeps every letter and
/// digit.
proof fn lemma_alnum_chars_collapse(s: Seq<char>)
    ensures
        alnum_chars(collapse_non_alnum(s, " "@)) == alnum_chars(s),
    decreases s.len(),
{
    reveal_strlit(" ");
    assert(" "@ =~= seq![' ']);
    if s.len() > 0 {
        let rest = s.drop_first();
        let r = collapse_non_alnum(rest, " "@);
        lemma_alnum_chars_collapse(rest);
        lemma_alnum_chars_cons(s);
        let c = collapse_non_alnum(s, " "@);
        if is_ascii_alnum(s[0]) {
            assert(c == seq![s[0]] + r);
            assert(c.drop_first() =~= r);
            lemma_alnum_chars_cons(c);
        } else if s.len() > 1 && !is_ascii_alnum(s[1]) {
            assert(c == r);
        } else {
            assert(c == seq![' '] + r);
            assert(c.drop_first() =~= r);
            lemma_alnum_chars_cons(c);
        }
    }
}

/// The title part keeps the ASCII letters and digits of the title, every
/// one of them and in their order, and holds no other letter or digit.
pub proof fn lemma_title_part_keeps_alnum(title: Seq<char>)
    ensures
        alnum_chars(title_part_spec(title)) == alnum_chars(title),
{
    reveal_strlit(" ");
    reveal_strlit("-");
    let t = trim_spec(title);
    let c = collapse_non_alnum(t, " "@);
    let e = trim_end_spec(c);
    lemma_alnum_chars_trim(title);
    lemma_alnum_chars_collapse(t);
    lemma_alnum_chars_trim(c);
    assert(" "@ == seq![' ']);
    assert("-"@ == seq!['-']);
    lemma_replace_char(e, ' ', '-');
    let r = title_part_spec(title);
    assert(r == replace_spec(e, seq![' '], seq!['-']));
    lemma_alnum_chars_pointwise(r, e);
}

/// The URL to which an image is posted.
pub open spec fn upload_url_spec(project: Seq<char>, dataset: Seq<char>, file_name: Seq<char>) -> Seq<
    char,
> {
    "https://"@ + project + ".api.sanity.io/v2021-06-07/assets/images/"@ + dataset
        + "?filename="@ + file_name
}

/// The URL to which an image named `file_name` is posted.
pub fn upload_url(project: &str, dataset: &str, file_name: &str) -> (res: String)
    ensures
        res@ == upload_url_spec(project@, dataset@, file_name@),
{
    let mut url = String::from_str("https://");
    url.append(project);
    url.append(".api.sanity.io/v2021-06-07/assets/images/");
    url.append(dataset);
    url.append("?filename=");
    url.append(file_name);
    url
}

/// The URL of a GROQ query on a dataset.
pub open spec fn query_url_spec(project: Seq<char>, dataset: Seq<char>, query: Seq<char>) -> Seq<
    char,
> {
    "https://"@ + project + ".api.sanity.io/v2021-06-07/data/query/"@ + dataset + "?query="@
        + query
}

/// The URL of the GROQ query `query` on `dataset`.
pub fn query_url(project: &str, dataset: &str, query: &str) -> (res: String)
    ensures
        res@ == query_url_spec(project@, dataset@, query@),
{
    let mut url = String::from_str("https://");
    url.append(project);
    url.append(".api.sanity.io/v2021-06-07/data/query/");
    url.append(dataset);
    url.append("?query=");
    url.append(query);
    url
}

/// The GROQ query of all video documents, with their duration, views, URL
/// and id.
pub open spec fn video_query_spec() -> Seq<char> {
    "*[_type == video]{\n     videoDuration,\n       views,\n        url,\n      _id\n}"@
}

/// The GROQ query of all video documents.
pub fn video_query() -> (res: String)
    ensures
        res@ == video_query_spec(),
{
    String::from_str(
        "*[_type == video]{\n     videoDuration,\n       views,\n        url,\n      _id\n}",
    )
}

/// What the answer to a query means.
#[derive(PartialEq, Eq, Structural, Debug, Clone, Copy)]
pub enum QueryOutcome {
    /// 200: the documents came back.
    Received,
    /// 401: the token was refused.
    Unauthorized,
    /// Any other status.
    Unexpected,
}

/// What the HTTP status `status` of a query answer means.
pub fn query_outcome(status: u16) -> (res: QueryOutcome)
    ensures
        res == (if status == 200 {
            QueryOutcome::Received
        } else if status == 401 {
            QueryOutcome::Unauthorized
        } else {
            QueryOutcome::Unexpected
        }),
{
    if status == 200 {
        QueryOutcome::Received
    } else if status == 401 {
        QueryOutcome::Unauthorized
    } else {
        QueryOutcome::Unexpected
    }
}

} // verus!
