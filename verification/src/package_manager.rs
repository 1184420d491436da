use vstd::prelude::*;
use vstd::string::StringExecFns;
use vstd::string::StrSliceExecFns;
use crate::error::{BellronosError, ErrV};
use crate::strutil::{concat_str, str_eq, str_to_chars};

verus! {

/// A package's registry record: its name, its version, and the packages
/// it depends on.
pub struct PackageMetadata {
    pub name: String,
    pub version: String,
    pub dependencies: Vec<String>,
}

/// What the registry's JSON metadata record denotes: the name, version
/// and dependency fields, absent string fields defaulting to empty and
/// non-string dependency entries dropped; `None` when the text is not
/// JSON.
pub uninterp spec fn metadata_of(s: Seq<char>) -> Option<(Seq<char>, Seq<char>, Seq<Seq<char>>)>;

/// Relies on `serde_json::from_str` for `serde_json::Value` and on the
/// accessors `get`, `as_str` and `as_array`: the record's fields are a
/// function of the text alone.
#[verifier::external_body]
fn metadata_fields(text: &str) -> (r: Option<(String, String, Vec<String>)>)
    ensures
        r.deep_view() == metadata_of(text@),
{
    let v: serde_json::Value = match serde_json::from_str(text) {
        Ok(v) => v,
        Err(_) => return None,
    };
    let name = v.get("name").and_then(serde_json::Value::as_str).unwrap_or("").to_string();
    let version = v.get("version").and_then(serde_json::Value::as_str).unwrap_or("").to_string();
    let dependencies = match v.get("dependencies").and_then(serde_json::Value::as_array) {
        Some(a) => a.iter().filter_map(|x| x.as_str().map(|s| s.to_string())).collect(),
        None => Vec::new(),
    };
    Some((name, version, dependencies))
}

/// What a registry search response denotes: a list of package names, or
/// `None` when the text is not a JSON array of strings.
pub uninterp spec fn string_list_of(s: Seq<char>) -> Option<Seq<Seq<char>>>;

/// Relies on `serde_json::from_str` for `Vec<String>`: the list is a
/// function of the text alone.
#[verifier::external_body]
fn string_list_fields(text: &str) -> (r: Option<Vec<String>>)
    ensures
        r.deep_view() == string_list_of(text@),
{
    serde_json::from_str::<Vec<String>>(text).ok()
}

/// Parses a registry metadata record.
pub fn parse_package_metadata(text: &str) -> (r: Result<PackageMetadata, BellronosError>)
    ensures
        match r {
            Ok(m) => metadata_of(text@) == Some(
                (m.name@, m.version@, m.dependencies.deep_view()),
            ),
            Err(e) => metadata_of(text@) is None && e.deep_view() == ErrV::Parser(
                "Failed to parse package metadata"@,
            ),
        },
{
    match metadata_fields(text) {
        Some((name, version, dependencies)) => Ok(
            PackageMetadata { name, version, dependencies },
        ),
        None => Err(BellronosError::Parser(String::from_str("Failed to parse package metadata"))),
    }
}

/// Parses a registry search response.
pub fn parse_search_results(text: &str) -> (r: Result<Vec<String>, BellronosError>)
    ensures
        match r {
            Ok(names) => string_list_of(text@) == Some(names.deep_view()),
            Err(e) => string_list_of(text@) is None && e.deep_view() == ErrV::Parser(
                "Failed to parse search results"@,
            ),
        },
{
    match string_list_fields(text) {
        Some(names) => Ok(names),
        None => Err(BellronosError::Parser(String::from_str("Failed to parse search results"))),
    }
}

/// The file a package is stored under: its name with the source suffix.
pub fn package_file_name(name: &str) -> (r: String)
    ensures
        r@ == name@ + ".bellronos"@,
{
    concat_str(name, ".bellronos")
}

/// Whether an installed package is behind the registry: an update
/// reinstalls exactly when the versions differ.
pub fn needs_reinstall(installed: &str, registry: &str) -> (r: bool)
    ensures
        r == (installed@ != registry@),
{
    !str_eq(installed, registry)
}

/// The version marker that package files carry near the top.
pub open spec fn version_marker() -> Seq<char> {
    "# Version:"@
}

/// Whether the line starting at `pos` carries the version marker.
pub open spec fn marked_at(s: Seq<char>, pos: int) -> bool {
    pos + version_marker().len() <= s.len() && s.subrange(pos, pos + version_marker().len())
        == version_marker()
}

/// The end of the line starting at or after `pos`.
pub open spec fn spec_line_end(s: Seq<char>, pos: int) -> int
    decreases s.len() - pos,
{
    if pos >= s.len() {
        pos
    } else if s[pos] == '\n' {
        pos
    } else {
        spec_line_end(s, pos + 1)
    }
}

pub proof fn lemma_line_end(s: Seq<char>, pos: int)
    requires
        0 <= pos <= s.len(),
    ensures
        pos <= spec_line_end(s, pos) <= s.len(),
    decreases s.len() - pos,
{
    if pos < s.len() && s[pos] != '\n' {
        lemma_line_end(s, pos + 1);
    }
}

/// The start of the first marked line at or after `pos`.
pub open spec fn spec_find_marked(s: Seq<char>, pos: int) -> Option<int>
    decreases s.len() - pos,
{
    if pos > s.len() {
        None
    } else if marked_at(s, pos) {
        Some(pos)
    } else {
        let e = spec_line_end(s, pos);
        if pos <= e < s.len() {
            spec_find_marked(s, e + 1)
        } else {
            None
        }
    }
}

/// A space, tab or carriage return, trimmed around the version text.
pub open spec fn is_trim_char(c: char) -> bool {
    c == ' ' || c == '\t' || c == '\r'
}

/// The first untrimmed position at or after `a`, below `b`.
pub open spec fn spec_trim_left(s: Seq<char>, a: int, b: int) -> int
    decreases b - a,
{
    if a < b && 0 <= a < s.len() && is_trim_char(s[a]) {
        spec_trim_left(s, a + 1, b)
    } else {
        a
    }
}

/// The last untrimmed bound at or below `b`, above `a`.
pub open spec fn spec_trim_right(s: Seq<char>, a: int, b: int) -> int
    decreases b - a,
{
    if a < b && 0 <= b - 1 < s.len() && is_trim_char(s[b - 1]) {
        spec_trim_right(s, a, b - 1)
    } else {
        b
    }
}

/// The first colon at or after `pos`, up to `end`.
pub open spec fn spec_find_colon(s: Seq<char>, pos: int, end: int) -> int
    decreases end - pos,
{
    if pos < end && 0 <= pos < s.len() && s[pos] != ':' {
        spec_find_colon(s, pos + 1, end)
    } else {
        pos
    }
}

/// The version a package file records: on the first line carrying the
/// marker, the text between the marker and the next colon or line end,
/// trimmed of blanks.
pub open spec fn spec_extract_version(s: Seq<char>) -> Option<Seq<char>> {
    match spec_find_marked(s, 0) {
        Some(ls) => {
            let a = ls + version_marker().len();
            let e = spec_line_end(s, a);
            let b = spec_find_colon(s, a, e);
            let a2 = spec_trim_left(s, a, b);
            let b2 = spec_trim_right(s, a2, b);
            if 0 <= a2 <= b2 <= s.len() {
                Some(s.subrange(a2, b2))
            } else {
                None
            }
        },
        None => None,
    }
}

/// Reads the recorded version out of a package file's text.
pub fn extract_package_version(content: &str) -> (r: Result<String, BellronosError>)
    ensures
        match r {
            Ok(v) => spec_extract_version(content@) == Some(v@),
            Err(e) => spec_extract_version(content@) is None && e.deep_view() == ErrV::Parser(
                "Failed to extract package version"@,
            ),
        },
{
    let s = str_to_chars(content);
    let n = s.len();
    let ghost sv = content@;
    let found = find_marked_exec(&s, 0);
    let ls = match found {
        Some(ls) => ls,
        None => {
            return Err(
                BellronosError::Parser(String::from_str("Failed to extract package version")),
            );
        },
    };
    let a = ls + 10;
    proof {
        reveal_strlit("# Version:");
        assert(version_marker().len() == 10);
        lemma_line_end(sv, a as int);
    }
    let e = line_end_exec(&s, a);
    let mut b: usize = a;
    while b < e && s[b] != ':'
        invariant
            a <= b <= e,
            e <= n,
            spec_find_colon(sv, a as int, e as int) == spec_find_colon(sv, b as int, e as int),
        decreases e - b,
    {
        b = b + 1;
    }
    let mut a2: usize = a;
    while a2 < b && is_trim_exec(s[a2])
        invariant
            a <= a2 <= b,
            b <= n,
            spec_trim_left(sv, a as int, b as int) == spec_trim_left(sv, a2 as int, b as int),
        decreases b - a2,
    {
        a2 = a2 + 1;
    }
    let mut b2: usize = b;
    while b2 > a2 && is_trim_exec(s[b2 - 1])
        invariant
            a2 <= b2 <= b,
            spec_trim_right(sv, a2 as int, b as int) == spec_trim_right(sv, a2 as int, b2 as int),
        decreases b2 - a2,
    {
        b2 = b2 - 1;
    }
    let mut out: Vec<char> = Vec::new();
    let mut i: usize = a2;
    while i < b2
        invariant
            a2 <= i <= b2,
            b2 <= n,
            out@ =~= sv.subrange(a2 as int, i as int),
        decreases b2 - i,
    {
        out.push(s[i]);
        proof {
            assert(out@ =~= sv.subrange(a2 as int, i + 1));
        }
        i = i + 1;
    }
    Ok(crate::strutil::chars_to_string(&out))
}

/// The start of the first marked line at or after `pos`.
fn find_marked_exec(s: &Vec<char>, pos: usize) -> (r: Option<usize>)
    requires
        pos <= s@.len(),
    ensures
        match r {
            Some(p) => spec_find_marked(s@, pos as int) == Some(p as int) && p + 10 <= s@.len(),
            None => spec_find_marked(s@, pos as int) is None,
        },
    decreases s@.len() - pos,
{
    proof {
        reveal_strlit("# Version:");
    }
    if line_is_marked(s, pos) {
        return Some(pos);
    }
    proof {
        lemma_line_end(s@, pos as int);
    }
    let e = line_end_exec(s, pos);
    if e >= s.len() {
        None
    } else {
        find_marked_exec(s, e + 1)
    }
}

/// Decides `is_trim_char`.
fn is_trim_exec(c: char) -> (r: bool)
    ensures
        r == is_trim_char(c),
{
    c == ' ' || c == '\t' || c == '\r'
}

/// The end of the line starting at or after `pos`.
fn line_end_exec(s: &Vec<char>, pos: usize) -> (r: usize)
    requires
        pos <= s@.len(),
    ensures
        r as int == spec_line_end(s@, pos as int),
        pos <= r <= s@.len(),
{
    let mut p = pos;
    while p < s.len() && s[p] != '\n'
        invariant
            pos <= p <= s@.len(),
            spec_line_end(s@, pos as int) == spec_line_end(s@, p as int),
        decreases s@.len() - p,
    {
        p = p + 1;
    }
    p
}

/// Whether the line starting at `pos` carries the version marker.
fn line_is_marked(s: &Vec<char>, pos: usize) -> (r: bool)
    requires
        pos <= s@.len(),
    ensures
        r == marked_at(s@, pos as int),
{
    proof {
        reveal_strlit("# Version:");
    }
    if s.len() < 10 || pos > s.len() - 10 {
        return false;
    }
    let mut i: usize = 0;
    let marker = str_to_chars("# Version:");
    while i < 10
        invariant
            i <= 10,
            pos + 10 <= s@.len(),
            marker@ == version_marker(),
            marker@.len() == 10,
            forall|j: int| 0 <= j < i ==> s@[pos + j] == version_marker()[j],
        decreases 10 - i,
    {
        if s[pos + i] != marker[i] {
            proof {
                assert(s@[pos + i] != version_marker()[i as int]);
                assert(!marked_at(s@, pos as int)) by {
                    if marked_at(s@, pos as int) {
                        assert(s@.subrange(pos as int, pos + 10)[i as int] == s@[pos + i]);
                    }
                }
            }
            return false;
        }
        i = i + 1;
    }
    proof {
        assert(s@.subrange(pos as int, pos + 10) =~= version_marker());
    }
    true
}

} // verus!
