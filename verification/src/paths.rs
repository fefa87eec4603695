//! Path and URL strings: joining path segments, the timestamped output path,
//! and turning an output path into a caller-facing URL.

use vstd::prelude::*;
use vstd::string::StrSliceExecFns;
use vstd::string::StringExecFns;

verus! {

/// Joining a relative segment onto a base path: a separator goes in between
/// unless the base is empty or already ends in one.
pub open spec fn spec_path_join(base: Seq<char>, child: Seq<char>) -> Seq<char> {
    if base.len() == 0 {
        child
    } else if base.last() == '/' {
        base + child
    } else {
        base + seq!['/'] + child
    }
}

/// Joins a relative path segment onto a base path.
pub fn path_join(base: &str, child: &str) -> (r: String)
    ensures
        r@ == spec_path_join(base@, child@),
{
    let n = base.unicode_len();
    let mut out = String::from_str(base);
    if n > 0 && base.get_char(n - 1) != '/' {
        out.append("/");
        proof {
            reveal_strlit("/");
        }
    }
    out.append(child);
    proof {
        assert(out@ =~= spec_path_join(base@, child@));
    }
    out
}

/// A directory string with a trailing separator added when it lacks one.
pub open spec fn spec_with_trailing_slash(dir: Seq<char>) -> Seq<char> {
    if dir.len() > 0 && dir.last() == '/' {
        dir
    } else {
        dir + seq!['/']
    }
}

/// Appends a trailing separator to a directory string unless it already ends
/// in one, the way configured directory roots are normalized.
pub fn ensure_trailing_slash(dir: String) -> (r: String)
    ensures
        r@ == spec_with_trailing_slash(dir@),
{
    let n = dir.as_str().unicode_len();
    if n > 0 && dir.as_str().get_char(n - 1) == '/' {
        dir
    } else {
        let mut out = dir;
        out.append("/");
        proof {
            reveal_strlit("/");
            assert(out@ =~= spec_with_trailing_slash(out@.subrange(0, out@.len() - 1)));
        }
        out
    }
}

/// The path a composite is stored at: the base path joined with
/// `<base name>_<timestamp>.<extension>`.
pub open spec fn spec_timestamped_path(
    base: Seq<char>,
    name: Seq<char>,
    ts: Seq<char>,
    ext: Seq<char>,
) -> Seq<char> {
    spec_path_join(base, name + seq!['_'] + ts + seq!['.'] + ext)
}

/// Builds the output path for a given timestamp.
pub fn timestamped_path(base_path: &str, base_name: &str, ts: &str, extension: &str) -> (r: String)
    ensures
        r@ == spec_timestamped_path(base_path@, base_name@, ts@, extension@),
{
    let mut file = String::from_str(base_name);
    file.append("_");
    file.append(ts);
    file.append(".");
    file.append(extension);
    proof {
        reveal_strlit("_");
        reveal_strlit(".");
        assert(file@ =~= base_name@ + seq!['_'] + ts@ + seq!['.'] + extension@);
    }
    path_join(base_path, file.as_str())
}

/// Relies on chrono's Utc::now and its format with `%Y%m%d%H%M%S`: the year
/// prints as at least four digits and the five other fields as two each, so
/// the timestamp has at least fourteen characters.
#[verifier::external_body]
fn now_timestamp() -> (ts: String)
    ensures
        ts@.len() >= 14,
{
    chrono::Utc::now().format("%Y%m%d%H%M%S").to_string()
}

/// Builds a second-resolution timestamped output path, so that sequential
/// composites from the same project do not collide under normal call rates.
pub fn generate_timestamped_path(base_path: &str, base_name: &str, extension: &str) -> (r: String)
    ensures
        exists|ts: Seq<char>|
            ts.len() >= 14 && r@ == spec_timestamped_path(base_path@, base_name@, ts, extension@),
{
    let ts = now_timestamp();
    let r = timestamped_path(base_path, base_name, ts.as_str(), extension);
    proof {
        assert(ts@.len() >= 14 && r@ == spec_timestamped_path(
            base_path@,
            base_name@,
            ts@,
            extension@,
        ));
    }
    r
}

/// The path with every backslash turned into a forward slash.
pub open spec fn spec_replace_backslashes(s: Seq<char>) -> Seq<char> {
    Seq::new(
        s.len(),
        |i: int|
            if s[i] == '\\' {
                '/'
            } else {
                s[i]
            },
    )
}

/// Where a pattern first occurs in a string, or -1 when it never does.
pub open spec fn spec_find_first(s: Seq<char>, pat: Seq<char>) -> int
    decreases s.len(),
{
    if s.len() < pat.len() {
        -1
    } else if s.subrange(0, pat.len() as int) == pat {
        0
    } else if s.len() == 0 {
        -1
    } else {
        let r = spec_find_first(s.subrange(1, s.len() as int), pat);
        if r == -1 {
            -1
        } else {
            r + 1
        }
    }
}

/// The search result is never below -1.
pub proof fn lemma_find_first_lower_bound(s: Seq<char>, pat: Seq<char>)
    ensures
        spec_find_first(s, pat) >= -1,
    decreases s.len(),
{
    if s.len() < pat.len() {
    } else if s.subrange(0, pat.len() as int) == pat {
    } else if s.len() == 0 {
    } else {
        lemma_find_first_lower_bound(s.subrange(1, s.len() as int), pat);
    }
}

/// A found occurrence lies within the string and matches the pattern there.
pub proof fn lemma_find_first_in_range(s: Seq<char>, pat: Seq<char>)
    requires
        spec_find_first(s, pat) >= 0,
    ensures
        spec_find_first(s, pat) + pat.len() <= s.len(),
        s.subrange(spec_find_first(s, pat), spec_find_first(s, pat) + pat.len()) == pat,
    decreases s.len(),
{
    let f = spec_find_first(s, pat);
    if s.len() < pat.len() {
    } else if s.subrange(0, pat.len() as int) == pat {
    } else if s.len() == 0 {
    } else {
        let tail = s.subrange(1, s.len() as int);
        lemma_find_first_in_range(tail, pat);
        assert(tail.subrange(f - 1, f - 1 + pat.len()) =~= s.subrange(f, f + pat.len()));
    }
}

/// Everything after the first `/media/` in the path, or the whole path when
/// that segment never occurs.
pub open spec fn spec_after_media(s: Seq<char>) -> Seq<char> {
    let f = spec_find_first(s, "/media/"@);
    if f == -1 {
        s
    } else {
        s.subrange(f + "/media/"@.len(), s.len() as int)
    }
}

/// The string with its leading forward slashes removed.
pub open spec fn spec_trim_leading_slashes(s: Seq<char>) -> Seq<char>
    decreases s.len(),
{
    if s.len() > 0 && s[0] == '/' {
        spec_trim_leading_slashes(s.subrange(1, s.len() as int))
    } else {
        s
    }
}

/// The caller-facing URL of a stored image: the public domain, a slash, and
/// the path after the media root, with backslashes normalized and leading
/// slashes dropped.
pub open spec fn spec_serving_url(domain: Seq<char>, path: Seq<char>) -> Seq<char> {
    domain + seq!['/'] + spec_trim_leading_slashes(spec_after_media(spec_replace_backslashes(path)))
}

/// Normalizes a path's separators to forward slashes.
fn replace_backslashes(s: &str) -> (r: String)
    ensures
        r@ == spec_replace_backslashes(s@),
{
    let n = s.unicode_len();
    let mut out = String::new();
    let mut i: usize = 0;
    while i < n
        invariant
            0 <= i <= n,
            n == s@.len(),
            out@ =~= spec_replace_backslashes(s@).subrange(0, i as int),
        decreases n - i,
    {
        let c = s.get_char(i);
        if c == '\\' {
            out.append("/");
            proof {
                reveal_strlit("/");
            }
        } else {
            out.append(s.substring_char(i, i + 1));
        }
        proof {
            assert(out@ =~= spec_replace_backslashes(s@).subrange(0, i + 1 as int));
        }
        i = i + 1;
    }
    proof {
        assert(spec_replace_backslashes(s@).subrange(0, n as int) =~= spec_replace_backslashes(
            s@,
        ));
    }
    out
}

/// Finds the first occurrence of a pattern in a string.
fn find_first(s: &str, pat: &str) -> (r: Option<usize>)
    ensures
        match r {
            Option::Some(i) => spec_find_first(s@, pat@) == i,
            Option::None => spec_find_first(s@, pat@) == -1,
        },
{
    let n = s.unicode_len();
    let m = pat.unicode_len();
    if m > n {
        return None;
    }
    let mut i: usize = 0;
    proof {
        assert(s@.subrange(0, n as int) =~= s@);
    }
    while i <= n - m
        invariant
            0 <= i <= n,
            m <= n,
            n == s@.len(),
            m == pat@.len(),
            spec_find_first(s@, pat@) == if spec_find_first(s@.subrange(i as int, n as int), pat@)
                == -1 {
                -1int
            } else {
                spec_find_first(s@.subrange(i as int, n as int), pat@) + i
            },
        decreases n - i,
    {
        let rest = s.substring_char(i, n);
        if crate::names::str_starts_with(rest, pat) {
            return Some(i);
        }
        proof {
            if pat@.len() == 0 {
                assert(rest@.subrange(0, 0) =~= pat@);
                assert(false);
            }
            let tail = s@.subrange(i as int, n as int);
            assert(tail.subrange(1, tail.len() as int) =~= s@.subrange(i + 1 as int, n as int));
            lemma_find_first_lower_bound(s@.subrange(i + 1 as int, n as int), pat@);
        }
        i = i + 1;
    }
    proof {
        assert(s@.subrange(i as int, n as int).len() < pat@.len());
    }
    None
}

/// Drops the leading forward slashes of a path.
fn trim_leading_slashes(s: &str) -> (r: String)
    ensures
        r@ == spec_trim_leading_slashes(s@),
{
    let n = s.unicode_len();
    let mut j: usize = 0;
    proof {
        assert(s@.subrange(0, n as int) =~= s@);
    }
    while j < n && s.get_char(j) == '/'
        invariant
            0 <= j <= n,
            n == s@.len(),
            spec_trim_leading_slashes(s@) == spec_trim_leading_slashes(
                s@.subrange(j as int, n as int),
            ),
        decreases n - j,
    {
        proof {
            let t = s@.subrange(j as int, n as int);
            assert(t.subrange(1, t.len() as int) =~= s@.subrange(j + 1 as int, n as int));
        }
        j = j + 1;
    }
    let r = String::from_str(s.substring_char(j, n));
    proof {
        assert(spec_trim_leading_slashes(s@.subrange(j as int, n as int)) == s@.subrange(
            j as int,
            n as int,
        ));
    }
    r
}

/// Turns a stored image path into its caller-facing URL under the public
/// domain: the part after the media root, separators normalized.
pub fn convert_image_path_to_serving_url(image_path: &str, domain: &str) -> (r: String)
    ensures
        r@ == spec_serving_url(domain@, image_path@),
{
    let replaced = replace_backslashes(image_path);
    let n = replaced.as_str().unicode_len();
    let m = "/media/".unicode_len();
    let after: String = match find_first(replaced.as_str(), "/media/") {
        Some(i) => {
            proof {
                lemma_find_first_in_range(replaced@, "/media/"@);
            }
            String::from_str(replaced.as_str().substring_char(i + m, n))
        },
        None => replaced,
    };
    let trimmed = trim_leading_slashes(after.as_str());
    let mut out = String::from_str(domain);
    out.append("/");
    out.append(trimmed.as_str());
    proof {
        reveal_strlit("/");
        assert(out@ =~= spec_serving_url(domain@, image_path@));
    }
    out
}

} // verus!
