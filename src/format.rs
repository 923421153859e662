//! Input formats, named by a flag or by a file's extension.
use vstd::prelude::*;

verus! {

/// The source formats that decoders exist for.
#[derive(Clone, Copy, Debug, PartialEq, Eq, Structural)]
pub enum InputFormat {
    GeoJson,
    TopoJson,
    Csv,
    Shapefile,
    Wkt,
    Polyline,
    Kml,
}

/// A format name that is none of the known ones.
#[derive(Clone, Copy, Debug, PartialEq, Eq, Structural)]
pub enum FormatError {
    InvalidFormat,
}

/// `c` is `l`, or `l` is a lower case ASCII letter and `c` its capital.
pub open spec fn folds_to(c: char, l: char) -> bool {
    c == l || ('a' <= l <= 'z' && c as u32 + 32 == l as u32)
}

/// `s` spells `name` up to ASCII case.
pub open spec fn name_matches(s: Seq<char>, name: Seq<char>) -> bool {
    s.len() == name.len() && forall|k: int| 0 <= k < s.len() ==> folds_to(#[trigger] s[k], name[k])
}

/// The format a name denotes, ignoring ASCII case.
pub open spec fn format_of(s: Seq<char>) -> Option<InputFormat> {
    if name_matches(s, "geojson"@) {
        Some(InputFormat::GeoJson)
    } else if name_matches(s, "topojson"@) {
        Some(InputFormat::TopoJson)
    } else if name_matches(s, "csv"@) {
        Some(InputFormat::Csv)
    } else if name_matches(s, "shp"@) {
        Some(InputFormat::Shapefile)
    } else if name_matches(s, "wkt"@) {
        Some(InputFormat::Wkt)
    } else if name_matches(s, "polyline"@) {
        Some(InputFormat::Polyline)
    } else if name_matches(s, "kml"@) {
        Some(InputFormat::Kml)
    } else {
        None
    }
}

/// Where the extension of a path starts: after its last `.`, or at 0 when
/// it has none.
pub open spec fn ext_start(s: Seq<char>) -> int
    decreases s.len(),
{
    if s.len() == 0 {
        0
    } else if s.last() == '.' {
        s.len() as int
    } else {
        ext_start(s.drop_last())
    }
}

/// The part of a path after its last `.`; the whole path when it has none.
pub open spec fn extension(s: Seq<char>) -> Seq<char> {
    s.subrange(ext_start(s), s.len() as int)
}

pub open spec fn result_of(f: Option<InputFormat>) -> Result<InputFormat, FormatError> {
    match f {
        Some(x) => Ok(x),
        None => Err(FormatError::InvalidFormat),
    }
}

/// Whether `s` from char position `from` on spells `name` up to ASCII case.
fn name_equals(s: &str, from: usize, name: &str) -> (r: bool)
    requires
        from <= s@.len(),
    ensures
        r == name_matches(s@.subrange(from as int, s@.len() as int), name@),
{
    let n = s.unicode_len();
    let m = name.unicode_len();
    if n - from != m {
        return false;
    }
    let ghost sub = s@.subrange(from as int, s@.len() as int);
    let mut k: usize = 0;
    while k < m
        invariant
            n == s@.len(),
            m == name@.len(),
            n - from == m,
            from <= n,
            k <= m,
            sub == s@.subrange(from as int, s@.len() as int),
            forall|t: int| 0 <= t < k ==> folds_to(#[trigger] sub[t], name@[t]),
        decreases m - k,
    {
        let c = s.get_char(from + k);
        let l = name.get_char(k);
        if !(c == l || ('a' <= l && l <= 'z' && c as u32 + 32 == l as u32)) {
            assert(sub[k as int] == c);
            return false;
        }
        assert(sub[k as int] == c);
        k += 1;
    }
    true
}

impl InputFormat {
    /// The format named by `s` (from position `from` on), ignoring ASCII case.
    fn from_tail(s: &str, from: usize) -> (r: Result<InputFormat, FormatError>)
        requires
            from <= s@.len(),
        ensures
            r == result_of(format_of(s@.subrange(from as int, s@.len() as int))),
    {
        if name_equals(s, from, "geojson") {
            Ok(InputFormat::GeoJson)
        } else if name_equals(s, from, "topojson") {
            Ok(InputFormat::TopoJson)
        } else if name_equals(s, from, "csv") {
            Ok(InputFormat::Csv)
        } else if name_equals(s, from, "shp") {
            Ok(InputFormat::Shapefile)
        } else if name_equals(s, from, "wkt") {
            Ok(InputFormat::Wkt)
        } else if name_equals(s, from, "polyline") {
            Ok(InputFormat::Polyline)
        } else if name_equals(s, from, "kml") {
            Ok(InputFormat::Kml)
        } else {
            Err(FormatError::InvalidFormat)
        }
    }

    /// The format named by `s`, ignoring ASCII case.
    pub fn from_str(s: &str) -> (r: Result<InputFormat, FormatError>)
        ensures
            r == result_of(format_of(s@)),
    {
        let r = InputFormat::from_tail(s, 0);
        assert(s@.subrange(0, s@.len() as int) =~= s@);
        r
    }
}

/// Position after the last `.` of `s`, or 0.
fn extension_start(s: &str) -> (r: usize)
    ensures
        r == ext_start(s@),
        r <= s@.len(),
{
    let n = s.unicode_len();
    let mut start: usize = 0;
    let mut i: usize = 0;
    while i < n
        invariant
            n == s@.len(),
            i <= n,
            start == ext_start(s@.subrange(0, i as int)),
            start <= i,
        decreases n - i,
    {
        let c = s.get_char(i);
        assert(s@.subrange(0, i + 1).drop_last() =~= s@.subrange(0, i as int));
        if c == '.' {
            start = i + 1;
        }
        i += 1;
    }
    assert(s@.subrange(0, n as int) =~= s@);
    start
}

/// The format given by the flag, or else by the extension of the path.
pub fn get_file_format(file_path: &str, file_format: Option<&str>) -> (r: Result<InputFormat, FormatError>)
    ensures
        r == result_of(
            format_of(
                match file_format {
                    Some(f) => f@,
                    None => extension(file_path@),
                },
            ),
        ),
{
    match file_format {
        Some(f) => InputFormat::from_str(f),
        None => {
            let start = extension_start(file_path);
            InputFormat::from_tail(file_path, start)
        },
    }
}

} // verus!
