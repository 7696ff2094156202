//! Text utilities: regular-expression matching behind trusted wrappers,
//! exact substring search, whitespace trimming, and extraction of the first
//! fenced code block from an oracle response.

use vstd::prelude::*;
use vstd::string::StrSliceExecFns;
use vstd::string::StringExecFns;

verus! {

/// Whether the regular expression `pattern` matches somewhere in `text`;
/// an invalid pattern matches nothing.
pub uninterp spec fn regex_match(pattern: Seq<char>, text: Seq<char>) -> bool;

/// The second capture group of each successive match of `pattern` in
/// `text` in which that group participates, in match order; empty for an
/// invalid pattern.
pub uninterp spec fn regex_second_captures(pattern: Seq<char>, text: Seq<char>) -> Seq<Seq<char>>;

/// `text` with every occurrence of `from` replaced by `to`, left to right.
pub uninterp spec fn replaced(text: Seq<char>, from: Seq<char>, to: Seq<char>) -> Seq<char>;

/// Relies on regex::Regex::new and Regex::is_match: whether the pattern
/// matches somewhere in the text, a function of the two arguments alone.
#[verifier::external_body]
pub fn pattern_matches(pattern: &str, text: &str) -> (r: bool)
    ensures
        r == regex_match(pattern@, text@),
{
    match regex::Regex::new(pattern) {
        Ok(re) => re.is_match(text),
        Err(_) => false,
    }
}

/// Relies on regex::Regex::captures_iter: the second capture group of
/// each match in which that group participates, in match order, a
/// function of the two arguments alone.
#[verifier::external_body]
pub fn pattern_second_captures(pattern: &str, text: &str) -> (r: Vec<String>)
    ensures
        r@.len() == regex_second_captures(pattern@, text@).len(),
        forall|i: int| 0 <= i < r@.len()
            ==> (#[trigger] r@[i])@ == regex_second_captures(pattern@, text@)[i],
{
    let mut out = Vec::new();
    if let Ok(re) = regex::Regex::new(pattern) {
        for cap in re.captures_iter(text) {
            if let Some(m) = cap.get(2) {
                out.push(m.as_str().to_string());
            }
        }
    }
    out
}

/// Relies on str::replace: the text with each occurrence of `from`
/// replaced by `to`, a function of the three arguments alone.
#[verifier::external_body]
pub fn replace_all(text: &str, from: &str, to: &str) -> (r: String)
    ensures
        r@ == replaced(text@, from@, to@),
{
    text.replace(from, to)
}

/// `pat` occurs in `s` at position `i`.
pub open spec fn is_match_at(s: Seq<char>, pat: Seq<char>, i: int) -> bool {
    0 <= i && i + pat.len() <= s.len() && s.subrange(i, i + pat.len()) == pat
}

/// The first position at or after `from` where `pat` occurs in `s`.
pub open spec fn spec_find(s: Seq<char>, pat: Seq<char>, from: nat) -> Option<int>
    decreases s.len() - from,
{
    if from + pat.len() > s.len() {
        None
    } else if pat.len() == 0 {
        Some(from as int)
    } else if s.subrange(from as int, from + pat.len() as int) == pat {
        Some(from as int)
    } else {
        spec_find(s, pat, from + 1)
    }
}

pub proof fn lemma_spec_find_is_match(s: Seq<char>, pat: Seq<char>, from: nat)
    ensures
        spec_find(s, pat, from) matches Some(i) ==> from <= i && is_match_at(s, pat, i),
    decreases s.len() - from,
{
    if from + pat.len() <= s.len() && pat.len() > 0
        && s.subrange(from as int, from + pat.len() as int) != pat {
        lemma_spec_find_is_match(s, pat, from + 1);
    }
    if from + pat.len() <= s.len() && pat.len() == 0 {
        assert(s.subrange(from as int, from as int) =~= pat);
    }
}

/// Substring search, character by character.
pub fn find_str_from(s: &str, pat: &str, from: usize) -> (r: Option<usize>)
    ensures
        match r {
            Some(i) => Some(i as int) == spec_find(s@, pat@, from as nat),
            None => spec_find(s@, pat@, from as nat) is None,
        },
{
    let n = s.unicode_len();
    let m = pat.unicode_len();
    if from > n || m > n - from {
        return None;
    }
    let mut i: usize = from;
    while i <= n - m
        invariant
            from <= i,
            i <= n - m + 1,
            m <= n,
            n == s@.len(),
            m == pat@.len(),
            spec_find(s@, pat@, from as nat) == spec_find(s@, pat@, i as nat),
        decreases n - i,
    {
        let mut j: usize = 0;
        let mut matched: bool = true;
        while j < m
            invariant
                i <= n - m,
                m <= n,
                n == s@.len(),
                m == pat@.len(),
                j <= m,
                matched ==> s@.subrange(i as int, i + j) == pat@.subrange(0, j as int),
                !matched ==> exists|k: int| 0 <= k < m && s@[i + k] != pat@[k],
            decreases m - j,
        {
            let sc = s.get_char(i + j);
            let pc = pat.get_char(j);
            proof {
                if matched {
                    if s@[i + j] == pat@[j as int] {
                        assert(s@.subrange(i as int, i + j + 1).drop_last()
                            =~= s@.subrange(i as int, i + j));
                        assert(pat@.subrange(0, j + 1).drop_last() =~= pat@.subrange(0, j as int));
                        assert(s@.subrange(i as int, i + j + 1).last() == s@[i + j]);
                        assert(pat@.subrange(0, j + 1).last() == pat@[j as int]);
                        assert(s@.subrange(i as int, i + j + 1) =~= pat@.subrange(0, j + 1));
                    }
                }
            }
            if sc != pc {
                matched = false;
            }
            j += 1;
        }
        proof {
            assert(pat@.subrange(0, pat@.len() as int) =~= pat@);
            if matched {
                assert(s@.subrange(i as int, i + m) == pat@);
            } else {
                let k = choose|k: int| 0 <= k < m && s@[i + k] != pat@[k];
                assert(s@.subrange(i as int, i + m)[k] == s@[i + k]);
                assert(s@.subrange(i as int, i + m) != pat@);
            }
        }
        if matched {
            return Some(i);
        }
        i += 1;
    }
    None
}

/// Substring search from the start.
pub fn find_str(s: &str, pat: &str) -> (r: Option<usize>)
    ensures
        match r {
            Some(i) => Some(i as int) == spec_find(s@, pat@, 0),
            None => spec_find(s@, pat@, 0) is None,
        },
{
    find_str_from(s, pat, 0)
}

/// Whether `sub` occurs anywhere in `s`.
pub fn str_contains(s: &str, sub: &str) -> (r: bool)
    ensures
        r == (spec_find(s@, sub@, 0) is Some),
{
    match find_str(s, sub) {
        Some(_) => true,
        None => false,
    }
}

/// The whitespace characters the trimming strips: space, tab, newline,
/// carriage return.
pub open spec fn is_space(c: char) -> bool {
    c == ' ' || c == '\t' || c == '\n' || c == '\r'
}

/// `s` without leading whitespace.
pub open spec fn spec_ltrim(s: Seq<char>) -> Seq<char>
    decreases s.len(),
{
    if s.len() > 0 && is_space(s[0]) {
        spec_ltrim(s.drop_first())
    } else {
        s
    }
}

/// `s` without trailing whitespace.
pub open spec fn spec_rtrim(s: Seq<char>) -> Seq<char>
    decreases s.len(),
{
    if s.len() > 0 && is_space(s.last()) {
        spec_rtrim(s.drop_last())
    } else {
        s
    }
}

/// `s` without leading and trailing whitespace.
pub open spec fn spec_trim(s: Seq<char>) -> Seq<char> {
    spec_rtrim(spec_ltrim(s))
}

proof fn lemma_ltrim_subrange(s: Seq<char>, k: int)
    requires
        0 <= k <= s.len(),
        forall|j: int| 0 <= j < k ==> is_space(s[j]),
    ensures
        spec_ltrim(s) == spec_ltrim(s.subrange(k, s.len() as int)),
    decreases k,
{
    if k > 0 {
        assert(is_space(s[0]));
        assert(spec_ltrim(s) == spec_ltrim(s.drop_first()));
        let s1 = s.drop_first();
        assert(s1 =~= s.subrange(1, s.len() as int));
        lemma_ltrim_subrange(s1, k - 1);
        assert(s1.subrange(k - 1, s1.len() as int) =~= s.subrange(k, s.len() as int));
    } else {
        assert(s.subrange(0, s.len() as int) =~= s);
    }
}

proof fn lemma_rtrim_subrange(s: Seq<char>, k: int)
    requires
        0 <= k <= s.len(),
        forall|j: int| k <= j < s.len() ==> is_space(s[j]),
    ensures
        spec_rtrim(s) == spec_rtrim(s.subrange(0, k)),
    decreases s.len() - k,
{
    if k < s.len() {
        assert(is_space(s.last()));
        assert(spec_rtrim(s) == spec_rtrim(s.drop_last()));
        let s1 = s.drop_last();
        assert(s1 =~= s.subrange(0, s.len() - 1));
        lemma_rtrim_subrange(s1, k);
        assert(s1.subrange(0, k) =~= s.subrange(0, k));
    } else {
        assert(s.subrange(0, s.len() as int) =~= s);
    }
}

/// Whether the character at position `i` of `s` is whitespace.
fn space_at(s: &str, i: usize) -> (r: bool)
    requires
        i < s@.len(),
    ensures
        r == is_space(s@[i as int]),
{
    let c = s.get_char(i);
    c == ' ' || c == '\t' || c == '\n' || c == '\r'
}

/// Strip leading and trailing whitespace.
pub fn trim_spaces(s: &str) -> (r: String)
    ensures
        r@ == spec_trim(s@),
{
    let n = s.unicode_len();
    let mut lo: usize = 0;
    while lo < n && space_at(s, lo)
        invariant
            lo <= n,
            n == s@.len(),
            forall|j: int| 0 <= j < lo ==> is_space(s@[j]),
        decreases n - lo,
    {
        lo += 1;
    }
    proof {
        lemma_ltrim_subrange(s@, lo as int);
        if lo < n {
            assert(!is_space(s@.subrange(lo as int, n as int)[0]));
        }
    }
    let mut hi: usize = n;
    while hi > lo && space_at(s, hi - 1)
        invariant
            lo <= hi <= n,
            n == s@.len(),
            forall|j: int| 0 <= j < lo ==> is_space(s@[j]),
            forall|j: int| hi <= j < n ==> is_space(s@[j]),
        decreases hi,
    {
        hi -= 1;
    }
    let piece = s.substring_char(lo, hi);
    proof {
        lemma_ltrim_subrange(s@, lo as int);
        let lt = s@.subrange(lo as int, n as int);
        if lo < n {
            assert(lt[0] == s@[lo as int]);
            assert(!is_space(lt[0]));
        } else {
            assert(lt.len() == 0);
        }
        assert(spec_ltrim(s@) == lt);
        assert forall|j: int| hi - lo <= j < lt.len() implies is_space(lt[j]) by {
            assert(lt[j] == s@[lo + j]);
        }
        lemma_rtrim_subrange(lt, hi - lo);
        let mid = s@.subrange(lo as int, hi as int);
        assert(lt.subrange(0, hi - lo) =~= mid);
        if hi > lo {
            assert(mid.last() == s@[hi - 1]);
            assert(!is_space(mid.last()));
        } else {
            assert(mid.len() == 0);
        }
        assert(spec_rtrim(mid) == mid);
        assert(spec_trim(s@) == mid);
    }
    String::from_str(piece)
}

/// The body of the first fenced block of `s`: the text between the first
/// pair of triple-backtick fences, without its first line when the block
/// holds a newline (the language tag), trimmed; `s` itself when no fenced
/// block is present.
pub open spec fn spec_extract_fenced(s: Seq<char>) -> Seq<char> {
    let fence = seq!['`', '`', '`'];
    match spec_find(s, fence, 0) {
        None => s,
        Some(start) => match spec_find(s, fence, (start + 3) as nat) {
            None => s,
            Some(end) => {
                let block = s.subrange(start + 3, end);
                match spec_find(block, seq!['\n'], 0) {
                    None => spec_trim(block),
                    Some(nl) => spec_trim(block.subrange(nl + 1, block.len() as int)),
                }
            },
        },
    }
}

/// Extract the first fenced code block's body from an oracle response, or
/// hand the response back unchanged when it holds no fenced block.
pub fn extract_code_from_response(response: &str) -> (r: String)
    ensures
        r@ == spec_extract_fenced(response@),
{
    proof {
        reveal_strlit("```");
        reveal_strlit("\n");
    }
    let n = response.unicode_len();
    let fence = "```";
    assert(fence@ =~= seq!['`', '`', '`']);
    let start = match find_str(response, fence) {
        None => {
            return String::from_str(response);
        },
        Some(i) => i,
    };
    proof {
        lemma_spec_find_is_match(response@, fence@, 0);
    }
    let end = match find_str_from(response, fence, start + 3) {
        None => {
            return String::from_str(response);
        },
        Some(i) => i,
    };
    proof {
        lemma_spec_find_is_match(response@, fence@, (start + 3) as nat);
    }
    let block = response.substring_char(start + 3, end);
    let newline = "\n";
    assert(newline@ =~= seq!['\n']);
    match find_str(block, newline) {
        None => trim_spaces(block),
        Some(nl) => {
            proof {
                lemma_spec_find_is_match(block@, newline@, 0);
            }
            let body = block.substring_char(nl + 1, block.unicode_len());
            trim_spaces(body)
        },
    }
}

} // verus!
