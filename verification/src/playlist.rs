use vstd::prelude::*;
use vstd::string::StrSliceExecFns;

verus! {

/// The decoded key/value pairs of the query string of a URL, as the `url`
/// crate parses them, or nothing when the text is not an absolute URL; a
/// function of the URL text alone.
pub uninterp spec fn url_query_pairs(s: Seq<char>) -> Option<Seq<(Seq<char>, Seq<char>)>>;

/// Relies on `url::Url::parse` and `url::Url::query_pairs`: parsing is
/// deterministic in the URL text, and `query_pairs` decodes the
/// `application/x-www-form-urlencoded` key/value pairs of its query string.
#[verifier::external_body]
fn query_pairs_of_url(url: &str) -> (r: Option<Vec<(String, String)>>)
    ensures
        r.deep_view() == url_query_pairs(url@),
{
    match url::Url::parse(url) {
        Ok(u) => Some(
            u.query_pairs().map(|(k, v)| (k.into_owned(), v.into_owned())).collect(),
        ),
        Err(_) => None,
    }
}

/// The `webpage_url` field of one line of metadata-resolver output, when
/// the line is a JSON object with that string field; a function of the line
/// alone.
pub uninterp spec fn webpage_url_of_json(s: Seq<char>) -> Option<Seq<char>>;

/// Relies on `serde_json::from_str`, `serde_json::Value::get` and
/// `serde_json::Value::as_str`: parsing a JSON document and reading a string
/// field out of it are deterministic in the text.
#[verifier::external_body]
fn webpage_url_of(line: &str) -> (r: Option<String>)
    ensures
        r.deep_view() == webpage_url_of_json(line@),
{
    serde_json::from_str::<serde_json::Value>(line).ok().and_then(
        |entry| entry.get("webpage_url").and_then(|u| u.as_str()).map(String::from),
    )
}

/// Whether the character is a decimal digit.
pub open spec fn spec_is_digit(c: char) -> bool {
    '0' <= c && c <= '9'
}

/// The value of a decimal digit character.
pub open spec fn spec_digit_val(c: char) -> int {
    c as int - '0' as int
}

/// Whether every character of the sequence is a decimal digit.
pub open spec fn spec_all_digits(s: Seq<char>) -> bool {
    forall|k: int| 0 <= k < s.len() ==> spec_is_digit(#[trigger] s[k])
}

/// The value of a sequence of decimal digit characters, most significant
/// first.
pub open spec fn spec_dec_val(s: Seq<char>) -> int
    decreases s.len(),
{
    if s.len() == 0 {
        0
    } else {
        spec_dec_val(s.drop_last()) * 10 + spec_digit_val(s.last())
    }
}

/// What parsing an unsigned number from text yields: an optional leading
/// `+`, then at least one decimal digit, and a value that fits the type;
/// anything else is rejected.
pub open spec fn spec_parse_usize(s: Seq<char>) -> Option<int> {
    let body = if s.len() >= 1 && s[0] == '+' {
        s.subrange(1, s.len() as int)
    } else {
        s
    };
    if body.len() == 0 {
        None
    } else if !spec_all_digits(body) {
        None
    } else if spec_dec_val(body) > usize::MAX {
        None
    } else {
        Some(spec_dec_val(body))
    }
}

/// The value of a digit sequence is never negative.
proof fn lemma_dec_val_nonneg(s: Seq<char>)
    requires
        spec_all_digits(s),
    ensures
        spec_dec_val(s) >= 0,
    decreases s.len(),
{
    if s.len() > 0 {
        assert(spec_all_digits(s.drop_last())) by {
            assert(forall|k: int| 0 <= k < s.len() - 1 ==> spec_is_digit(
                #[trigger] s.drop_last()[k],
            ));
        }
        lemma_dec_val_nonneg(s.drop_last());
    }
}

/// The value of a digit sequence is at least the value of any of its
/// prefixes: appending digits never shrinks the value.
proof fn lemma_dec_val_prefix_le(s: Seq<char>, i: int)
    requires
        spec_all_digits(s),
        0 <= i <= s.len(),
    ensures
        spec_dec_val(s.subrange(0, i)) <= spec_dec_val(s),
    decreases s.len() - i,
{
    if i == s.len() {
        assert(s.subrange(0, i) =~= s);
    } else {
        lemma_dec_val_prefix_le(s, i + 1);
        let p = s.subrange(0, i + 1);
        assert(p.drop_last() =~= s.subrange(0, i));
        assert(spec_all_digits(s.subrange(0, i))) by {
            assert(forall|k: int| 0 <= k < i ==> spec_is_digit(#[trigger] s.subrange(0, i)[k]));
        }
        lemma_dec_val_nonneg(s.subrange(0, i));
        assert(spec_dec_val(p) == spec_dec_val(s.subrange(0, i)) * 10 + spec_digit_val(p.last()));
        assert(spec_dec_val(s.subrange(0, i)) <= spec_dec_val(s.subrange(0, i)) * 10) by (nonlinear_arith)
            requires
                spec_dec_val(s.subrange(0, i)) >= 0,
        ;
    }
}

/// Parses an unsigned number from text, as the standard parser accepts it:
/// an optional leading `+`, then decimal digits; rejects anything else and
/// values that do not fit.
#[verifier::loop_isolation(false)]
pub fn parse_usize(s: &str) -> (r: Option<usize>)
    ensures
        match r {
            Some(n) => spec_parse_usize(s@) == Some(n as int),
            None => spec_parse_usize(s@) is None,
        },
{
    let n = s.unicode_len();
    let start: usize = if n >= 1 && s.get_char(0) == '+' {
        1
    } else {
        0
    };
    let ghost body = if start == 1 {
        s@.subrange(1, s@.len() as int)
    } else {
        s@
    };
    if n == start {
        return None;
    }
    let mut val: usize = 0;
    let mut i = start;
    while i < n
        invariant
            start <= i <= n,
            forall|k: int| 0 <= k < i - start ==> spec_is_digit(#[trigger] body[k]),
            val as int == spec_dec_val(body.subrange(0, i - start)),
        decreases n - i,
    {
        let c = s.get_char(i);
        if !('0' <= c && c <= '9') {
            proof {
                assert(body[i - start] == c);
                assert(!spec_all_digits(body));
            }
            return None;
        }
        let d: usize = (c as u32 as usize) - ('0' as u32 as usize);
        proof {
            assert(body[i - start] == c);
            assert(d == spec_digit_val(c));
            assert(body.subrange(0, i - start + 1).drop_last() =~= body.subrange(0, i - start));
            assert(spec_all_digits(body.subrange(0, i - start))) by {
                assert(forall|k: int| 0 <= k < i - start ==> spec_is_digit(
                    #[trigger] body.subrange(0, i - start)[k],
                ));
            }
            lemma_dec_val_nonneg(body.subrange(0, i - start));
        }
        if val > (usize::MAX - d) / 10 {
            proof {
                assert(val * 10 + d > usize::MAX) by (nonlinear_arith)
                    requires
                        val > (usize::MAX - d) / 10,
                        0 <= d <= 9,
                ;
                assert(spec_dec_val(body.subrange(0, i - start + 1)) == val * 10 + d);
                if spec_all_digits(body) {
                    lemma_dec_val_prefix_le(body, i - start + 1);
                    assert(spec_dec_val(body) > usize::MAX);
                }
            }
            return None;
        }
        proof {
            assert(val * 10 + d <= usize::MAX) by (nonlinear_arith)
                requires
                    val <= (usize::MAX - d) / 10,
                    0 <= d <= 9,
            ;
        }
        val = val * 10 + d;
        i = i + 1;
    }
    proof {
        assert(body.subrange(0, body.len() as int) =~= body);
        assert(spec_all_digits(body));
    }
    Some(val)
}


/// Whether `pat` occurs in `s` at position `i`.
pub open spec fn spec_match_at(s: Seq<char>, pat: Seq<char>, i: int) -> bool {
    s.subrange(i, i + pat.len()) == pat
}

/// Whether `pat` occurs anywhere in `s`.
pub open spec fn spec_has_substring(s: Seq<char>, pat: Seq<char>) -> bool {
    exists|i: int| 0 <= i <= s.len() - pat.len() && #[trigger] spec_match_at(s, pat, i)
}

/// Whether `s` begins with `pat`.
pub open spec fn spec_starts_with(s: Seq<char>, pat: Seq<char>) -> bool {
    s.len() >= pat.len() && spec_match_at(s, pat, 0)
}

/// Compares one candidate position against the pattern.
#[verifier::loop_isolation(false)]
fn matches_at(s: &str, n: usize, i: usize, pat: &str, m: usize) -> (b: bool)
    requires
        n == s@.len(),
        m == pat@.len(),
        i + m <= n,
    ensures
        b == spec_match_at(s@, pat@, i as int),
{
    let mut k: usize = 0;
    while k < m
        invariant
            0 <= k <= m,
            forall|j: int| 0 <= j < k ==> s@[i + j] == pat@[j],
        decreases m - k,
    {
        if s.get_char(i + k) != pat.get_char(k) {
            proof {
                if spec_match_at(s@, pat@, i as int) {
                    assert(s@.subrange(i as int, i + m)[k as int] == pat@[k as int]);
                }
            }
            return false;
        }
        k = k + 1;
    }
    proof {
        assert(s@.subrange(i as int, i + m) =~= pat@);
    }
    true
}

/// Whether the play command's argument names a playlist: the text carries a
/// `list=` query parameter somewhere.
#[verifier::loop_isolation(false)]
pub fn is_playlist_url(url: &str) -> (b: bool)
    ensures
        b == spec_has_substring(url@, "list="@),
{
    proof {
        reveal_strlit("list=");
    }
    let n = url.unicode_len();
    let pat = "list=";
    let m: usize = 5;
    if m > n {
        return false;
    }
    let mut i: usize = 0;
    while i <= n - m
        invariant
            0 <= i <= n - m + 1,
            m <= n,
            forall|j: int| 0 <= j < i ==> !spec_match_at(url@, "list="@, j),
        decreases n - i,
    {
        if matches_at(url, n, i, pat, m) {
            proof {
                assert(spec_has_substring(url@, "list="@)) by {
                    assert(spec_match_at(url@, "list="@, i as int));
                }
            }
            return true;
        }
        i = i + 1;
    }
    false
}

/// Whether the play command's argument is a plain search query rather than
/// a link: it does not begin with `http`.
pub fn is_search_query(url: &str) -> (b: bool)
    ensures
        b == !spec_starts_with(url@, "http"@),
{
    proof {
        reveal_strlit("http");
    }
    let n = url.unicode_len();
    if n < 4 {
        return true;
    }
    !matches_at(url, n, 0, "http", 4)
}

/// The value of the last `index` query parameter, if any.
pub open spec fn spec_last_index_value(pairs: Seq<(Seq<char>, Seq<char>)>) -> Option<Seq<char>>
    decreases pairs.len(),
{
    if pairs.len() == 0 {
        None
    } else if pairs.last().0 == "index"@ {
        Some(pairs.last().1)
    } else {
        spec_last_index_value(pairs.drop_last())
    }
}

/// Where a playlist starts: the last `index` query parameter parsed as a
/// number, defaulting to one when absent or unparsable.
pub open spec fn spec_playlist_start_index(pairs: Seq<(Seq<char>, Seq<char>)>) -> int {
    match spec_last_index_value(pairs) {
        None => 1,
        Some(text) => match spec_parse_usize(text) {
            None => 1,
            Some(v) => v,
        },
    }
}

/// A match at `i` with no later match settles the last `index` value.
proof fn lemma_last_index_found(pairs: Seq<(Seq<char>, Seq<char>)>, i: int)
    requires
        0 <= i < pairs.len(),
        pairs[i].0 == "index"@,
        forall|k: int| i < k < pairs.len() ==> (#[trigger] pairs[k]).0 != "index"@,
    ensures
        spec_last_index_value(pairs) == Some(pairs[i].1),
    decreases pairs.len(),
{
    if i == pairs.len() - 1 {
    } else {
        assert(pairs.drop_last()[i] == pairs[i]);
        lemma_last_index_found(pairs.drop_last(), i);
    }
}

/// No match anywhere means no last `index` value.
proof fn lemma_last_index_missing(pairs: Seq<(Seq<char>, Seq<char>)>)
    requires
        forall|k: int| 0 <= k < pairs.len() ==> (#[trigger] pairs[k]).0 != "index"@,
    ensures
        spec_last_index_value(pairs) is None,
    decreases pairs.len(),
{
    if pairs.len() > 0 {
        lemma_last_index_missing(pairs.drop_last());
    }
}

/// Reads the one-based start position out of a playlist URL's query pairs:
/// the last `index` parameter, parsed, defaulting to one.
#[verifier::loop_isolation(false)]
pub fn playlist_start_index(pairs: &Vec<(String, String)>) -> (r: usize)
    ensures
        r as int == spec_playlist_start_index(pairs.deep_view()),
{
    let ghost gpairs = pairs.deep_view();
    let needle = String::from_str("index");
    let mut i = pairs.len();
    proof {
        assert(gpairs.len() == pairs@.len());
    }
    while i > 0
        invariant
            0 <= i <= gpairs.len(),
            forall|k: int| i <= k < gpairs.len() ==> (#[trigger] gpairs[k]).0 != "index"@,
            needle@ == "index"@,
        decreases i,
    {
        i = i - 1;
        if pairs[i].0 == needle {
            proof {
                lemma_last_index_found(gpairs, i as int);
            }
            let parsed = parse_usize(pairs[i].1.as_str());
            return match parsed {
                Some(v) => v,
                None => 1,
            };
        }
    }
    proof {
        lemma_last_index_missing(gpairs);
    }
    1
}

/// Reads the one-based start position out of a playlist URL: the last
/// `index` query parameter, parsed, defaulting to one — also when the text
/// is not a URL at all.
pub fn playlist_start_index_of_url(url: &str) -> (r: usize)
    ensures
        r as int == match url_query_pairs(url@) {
            Some(pairs) => spec_playlist_start_index(pairs),
            None => 1,
        },
{
    match query_pairs_of_url(url) {
        Some(pairs) => playlist_start_index(&pairs),
        None => 1,
    }
}

/// The entries of a playlist from its one-based start position on.
pub fn playlist_selection(mut urls: Vec<String>, start: usize) -> (r: Vec<String>)
    requires
        1 <= start,
        start - 1 <= urls@.len(),
    ensures
        r.deep_view() == urls.deep_view().subrange(start - 1, urls.deep_view().len() as int),
{
    let ghost gurls = urls.deep_view();
    proof {
        assert(gurls.len() == urls@.len());
    }
    let r = urls.split_off(start - 1);
    proof {
        assert(r.deep_view() =~= gurls.subrange(start - 1, gurls.len() as int));
    }
    r
}

/// Extracts the page URL out of every line of resolver output; reports
/// nothing when any line lacks one, naming no survivor in its place.
#[verifier::loop_isolation(false)]
pub fn playlist_page_urls(lines: &Vec<String>) -> (r: Option<Vec<String>>)
    ensures
        match r {
            Some(urls) => {
                &&& urls.deep_view().len() == lines.deep_view().len()
                &&& forall|k: int| 0 <= k < lines.deep_view().len()
                    ==> Some(urls.deep_view()[k]) == webpage_url_of_json(
                    #[trigger] lines.deep_view()[k],
                )
            },
            None => exists|k: int| 0 <= k < lines.deep_view().len() && webpage_url_of_json(
                #[trigger] lines.deep_view()[k],
            ) is None,
        },
{
    let ghost glines = lines.deep_view();
    proof {
        assert(glines.len() == lines@.len());
    }
    let mut urls: Vec<String> = Vec::new();
    let mut i: usize = 0;
    while i < lines.len()
        invariant
            0 <= i <= glines.len(),
            urls@.len() == i,
            forall|k: int| 0 <= k < i ==> Some((#[trigger] urls@[k])@) == webpage_url_of_json(
                glines[k],
            ),
        decreases glines.len() - i,
    {
        match webpage_url_of(lines[i].as_str()) {
            Some(u) => {
                urls.push(u);
            },
            None => {
                proof {
                    assert(lines.deep_view()[i as int] == glines[i as int]);
                    assert(webpage_url_of_json(glines[i as int]) is None);
                }
                return None;
            },
        }
        i = i + 1;
    }
    proof {
        assert forall|k: int| 0 <= k < glines.len() implies Some(
            urls.deep_view()[k],
        ) == webpage_url_of_json(glines[k]) by {
            assert(urls.deep_view()[k] == urls@[k]@);
        }
    }
    Some(urls)
}

} // verus!
