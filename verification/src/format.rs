//! Persistence format selection from file extensions. The engine itself
//! performs no I/O; the host picks a file and asks this module which
//! format its extension names.

use vstd::prelude::*;

use crate::model::GraphError;

verus! {

/// The serialization formats a graph document can be stored in.
#[derive(Clone, Copy, PartialEq, Eq, Structural, Debug)]
pub enum GraphFormat {
    Toml,
    Yaml,
    Json,
}

/// ASCII whitespace stripped from the ends of an extension.
pub open spec fn is_ascii_space(c: char) -> bool {
    c == ' ' || c == '\t' || c == '\n' || c == '\r'
}

/// `c` with an ASCII capital letter folded to its small form.
pub open spec fn lower_char(c: char) -> char {
    if 65 <= c as u32 <= 90 {
        (((c as u32) + 32) as u8) as char
    } else {
        c
    }
}

/// The sequence folded to ASCII lower case, character by character.
pub open spec fn lower_seq(s: Seq<char>) -> Seq<char> {
    s.map_values(|c: char| lower_char(c))
}

/// The sequence with ASCII whitespace stripped from both ends.
pub open spec fn trim_seq(s: Seq<char>) -> Seq<char>
    decreases s.len(),
{
    if s.len() == 0 {
        s
    } else if is_ascii_space(s[0]) {
        trim_seq(s.subrange(1, s.len() as int))
    } else if is_ascii_space(s[s.len() - 1]) {
        trim_seq(s.subrange(0, s.len() - 1))
    } else {
        s
    }
}

/// An extension in canonical form: trimmed and folded to lower case.
pub open spec fn normalized_ext(s: Seq<char>) -> Seq<char> {
    lower_seq(trim_seq(s))
}

/// Trimming a sequence keeps exactly the piece between the first and the
/// last character that is not whitespace.
proof fn lemma_trim_bounds(s: Seq<char>, lo: int, hi: int)
    requires
        0 <= lo <= hi <= s.len(),
        forall|k: int| 0 <= k < lo ==> is_ascii_space(#[trigger] s[k]),
        forall|k: int| hi <= k < s.len() ==> is_ascii_space(#[trigger] s[k]),
        lo < hi ==> !is_ascii_space(s[lo]) && !is_ascii_space(s[hi - 1]),
    ensures
        trim_seq(s) == s.subrange(lo, hi),
    decreases s.len(),
{
    if s.len() == 0 {
        assert(trim_seq(s) =~= s.subrange(lo, hi));
    } else if is_ascii_space(s[0]) {
        let t = s.subrange(1, s.len() as int);
        if lo == 0 {
            assert(hi == 0);
            lemma_trim_bounds(t, 0, 0);
            assert(s.subrange(0, 0) =~= t.subrange(0, 0));
        } else {
            lemma_trim_bounds(t, lo - 1, hi - 1);
            assert(s.subrange(lo, hi) =~= t.subrange(lo - 1, hi - 1));
        }
    } else if is_ascii_space(s[s.len() - 1]) {
        let t = s.subrange(0, s.len() - 1);
        assert(hi < s.len());
        lemma_trim_bounds(t, lo, hi);
        assert(s.subrange(lo, hi) =~= t.subrange(lo, hi));
    } else {
        assert(lo == 0);
        assert(hi == s.len());
        assert(s.subrange(0, s.len() as int) =~= s);
    }
}

/// Whether `c` is ASCII whitespace.
fn is_space(c: char) -> (r: bool)
    ensures
        r == is_ascii_space(c),
{
    c == ' ' || c == '\t' || c == '\n' || c == '\r'
}

/// `c` folded to ASCII lower case.
fn to_lower(c: char) -> (r: char)
    ensures
        r == lower_char(c),
{
    let v: u32 = c as u32;
    if 65 <= v && v <= 90 {
        ((v + 32) as u8) as char
    } else {
        c
    }
}

/// Case-insensitive comparison of `s[lo..hi]` against a pattern.
#[verifier::loop_isolation(false)]
fn eq_lower(s: &str, lo: usize, hi: usize, pat: &str) -> (r: bool)
    requires
        lo <= hi <= s@.len(),
    ensures
        r == (lower_seq(s@.subrange(lo as int, hi as int)) == lower_seq(pat@)),
{
    let plen = pat.unicode_len();
    if hi - lo != plen {
        proof {
            assert(lower_seq(s@.subrange(lo as int, hi as int)).len() == hi - lo);
            assert(lower_seq(pat@).len() == plen);
        }
        return false;
    }
    let mut i: usize = 0;
    while i < plen
        invariant
            i <= plen,
            forall|k: int|
                0 <= k < i ==> lower_char(#[trigger] s@.subrange(lo as int, hi as int)[k])
                    == lower_char(pat@[k]),
        decreases plen - i,
    {
        let a = to_lower(s.get_char(lo + i));
        let b = to_lower(pat.get_char(i));
        if a != b {
            proof {
                assert(lower_seq(s@.subrange(lo as int, hi as int))[i as int] != lower_seq(
                    pat@,
                )[i as int]);
            }
            return false;
        }
        i = i + 1;
    }
    proof {
        assert(lower_seq(s@.subrange(lo as int, hi as int)) =~= lower_seq(pat@));
    }
    true
}

/// `d` marks the dot that starts the extension of a '/'-separated path:
/// the last dot, behind the last separator, and not the leading character
/// of the file name.
pub open spec fn is_ext_dot(s: Seq<char>, d: int) -> bool {
    &&& 0 < d < s.len()
    &&& s[d] == '.'
    &&& s[d - 1] != '/'
    &&& forall|k: int| d < k < s.len() ==> #[trigger] s[k] != '.' && s[k] != '/'
}

/// The path carries an extension.
pub open spec fn has_path_extension(s: Seq<char>) -> bool {
    exists|d: int| is_ext_dot(s, d)
}

/// The position of the extension dot, where one exists.
pub open spec fn path_ext_dot(s: Seq<char>) -> int {
    choose|d: int| is_ext_dot(s, d)
}

impl GraphFormat {
    /// The format a file extension names, ignoring surrounding ASCII
    /// whitespace and letter case: `json`, `yaml` or `yml`, or `toml`.
    /// An extension that is empty after trimming, or any other word, is
    /// rejected.
    #[verifier::loop_isolation(false)]
    pub fn from_extension(extension: &str) -> (r: Result<GraphFormat, GraphError>)
        ensures
            r == Ok::<GraphFormat, GraphError>(GraphFormat::Json) <==> normalized_ext(extension@)
                == "json"@,
            r == Ok::<GraphFormat, GraphError>(GraphFormat::Yaml) <==> (normalized_ext(extension@)
                == "yaml"@ || normalized_ext(extension@) == "yml"@),
            r == Ok::<GraphFormat, GraphError>(GraphFormat::Toml) <==> normalized_ext(extension@)
                == "toml"@,
            r == Err::<GraphFormat, GraphError>(GraphError::EmptyExtension) <==> normalized_ext(
                extension@,
            ).len() == 0,
            r is Err ==> r == Err::<GraphFormat, GraphError>(GraphError::EmptyExtension) || r
                == Err::<GraphFormat, GraphError>(GraphError::UnsupportedExtension),
    {
        proof {
            reveal_strlit("json");
            reveal_strlit("yaml");
            reveal_strlit("yml");
            reveal_strlit("toml");
        }
        let len = extension.unicode_len();
        let mut lo: usize = 0;
        while lo < len && is_space(extension.get_char(lo))
            invariant
                lo <= len,
                forall|k: int| 0 <= k < lo ==> is_ascii_space(#[trigger] extension@[k]),
            decreases len - lo,
        {
            lo = lo + 1;
        }
        let mut hi: usize = len;
        while hi > lo && is_space(extension.get_char(hi - 1))
            invariant
                lo <= hi <= len,
                forall|k: int| hi <= k < len ==> is_ascii_space(#[trigger] extension@[k]),
            decreases hi,
        {
            hi = hi - 1;
        }
        proof {
            lemma_trim_bounds(extension@, lo as int, hi as int);
            lemma_lower_of_lower("json"@);
            lemma_lower_of_lower("yaml"@);
            lemma_lower_of_lower("yml"@);
            lemma_lower_of_lower("toml"@);
            lemma_seq_neq_at("json"@, "yaml"@, 0);
            lemma_seq_neq_at("json"@, "yml"@, 0);
            lemma_seq_neq_at("json"@, "toml"@, 0);
            lemma_seq_neq_at("yaml"@, "yml"@, 1);
            lemma_seq_neq_at("yaml"@, "toml"@, 0);
            lemma_seq_neq_at("yml"@, "toml"@, 0);
        }
        if lo == hi {
            return Err(GraphError::EmptyExtension);
        }
        if eq_lower(extension, lo, hi, "json") {
            return Ok(GraphFormat::Json);
        }
        if eq_lower(extension, lo, hi, "yaml") {
            return Ok(GraphFormat::Yaml);
        }
        if eq_lower(extension, lo, hi, "yml") {
            return Ok(GraphFormat::Yaml);
        }
        if eq_lower(extension, lo, hi, "toml") {
            return Ok(GraphFormat::Toml);
        }
        Err(GraphError::UnsupportedExtension)
    }

    /// The format named by the extension of a '/'-separated path string:
    /// the piece after the final dot of the file name. A name without
    /// such a dot, or with only a leading dot, has no extension.
    #[verifier::loop_isolation(false)]
    pub fn from_path(path: &str) -> (r: Result<GraphFormat, GraphError>)
        ensures
            r == Err::<GraphFormat, GraphError>(GraphError::MissingExtension) <==> !has_path_extension(
                path@,
            ),
            has_path_extension(path@) ==> {
                let ext = path@.subrange(path_ext_dot(path@) + 1, path@.len() as int);
                &&& (r == Ok::<GraphFormat, GraphError>(GraphFormat::Json) <==> normalized_ext(ext)
                    == "json"@)
                &&& (r == Ok::<GraphFormat, GraphError>(GraphFormat::Yaml) <==> (normalized_ext(ext)
                    == "yaml"@ || normalized_ext(ext) == "yml"@))
                &&& (r == Ok::<GraphFormat, GraphError>(GraphFormat::Toml) <==> normalized_ext(ext)
                    == "toml"@)
                &&& (r == Err::<GraphFormat, GraphError>(GraphError::EmptyExtension) <==> normalized_ext(
                    ext,
                ).len() == 0)
                &&& (r is Err ==> r == Err::<GraphFormat, GraphError>(GraphError::EmptyExtension)
                    || r == Err::<GraphFormat, GraphError>(GraphError::UnsupportedExtension))
            },
    {
        let len = path.unicode_len();
        let mut i: usize = len;
        while i > 0
            invariant
                i <= len,
                len == path@.len(),
                forall|k: int| i <= k < len ==> #[trigger] path@[k] != '.' && path@[k] != '/',
            decreases i,
        {
            let c = path.get_char(i - 1);
            if c == '/' {
                proof {
                    assert forall|d: int| !is_ext_dot(path@, d) by {
                        if is_ext_dot(path@, d) {
                            if d < i - 1 {
                                assert(path@[i - 1] != '/');
                            } else {
                                assert(path@[d] == '.');
                            }
                        }
                    }
                }
                return Err(GraphError::MissingExtension);
            }
            if c == '.' {
                if i - 1 == 0 || path.get_char(i - 2) == '/' {
                    proof {
                        assert forall|d: int| !is_ext_dot(path@, d) by {}
                    }
                    return Err(GraphError::MissingExtension);
                }
                proof {
                    assert(is_ext_dot(path@, i - 1));
                    lemma_ext_dot_unique(path@, i - 1);
                }
                let ext = path.substring_char(i, len);
                let r = Self::from_extension(ext);
                return r;
            }
            i = i - 1;
        }
        proof {
            assert forall|d: int| !is_ext_dot(path@, d) by {}
        }
        Err(GraphError::MissingExtension)
    }
}

/// Two extension dots cannot coexist, so the chosen one is the found one.
proof fn lemma_ext_dot_unique(s: Seq<char>, d: int)
    requires
        is_ext_dot(s, d),
    ensures
        has_path_extension(s),
        path_ext_dot(s) == d,
{
    let w = path_ext_dot(s);
    assert(is_ext_dot(s, d));
    assert(is_ext_dot(s, w));
    if w < d {
        assert(s[d] == '.');
        assert(false);
    } else if d < w {
        assert(s[w] == '.');
        assert(false);
    }
}

/// Two sequences differing at one position differ.
proof fn lemma_seq_neq_at(a: Seq<char>, b: Seq<char>, k: int)
    requires
        0 <= k < a.len(),
        0 <= k < b.len(),
        a[k] != b[k],
    ensures
        a != b,
{
    if a == b {
        assert(a[k] == b[k]);
    }
}

/// Folding an already lower-case word changes nothing.
proof fn lemma_lower_of_lower(s: Seq<char>)
    requires
        forall|k: int| 0 <= k < s.len() ==> !(65 <= (#[trigger] s[k]) as u32 <= 90),
    ensures
        lower_seq(s) == s,
{
    assert(lower_seq(s) =~= s);
}

} // verus!
