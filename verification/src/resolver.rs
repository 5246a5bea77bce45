//! Turns the `src` of a script into an absolute URL, given the URL of the
//! page that names it.

use crate::text::{
    append_range, chars_of, chars_views, split_chars, split_on, starts_with_chars,
    starts_with_text, string_from_chars,
};
use vstd::prelude::*;

verus! {

/// Why a reference could not be resolved.
#[derive(Clone, Copy, Debug, PartialEq, Eq, Structural)]
pub enum ResolutionError {
    /// The page's URL does not begin with `http://` or `https://`.
    UnsupportedScheme,
    /// The page's URL names no host.
    MissingHost,
}

/// A component of a URL that a scan runs through.
#[derive(Clone, Copy, Debug, PartialEq, Eq, Structural)]
pub enum UrlPart {
    /// The host and port: ends before the first `/`, `?` or `#`.
    Authority,
    /// The path: ends before the first `?` or `#`.
    Path,
    /// The query: ends before the first `#`.
    Query,
}

/// The page's URL, taken apart.
pub struct BaseUrl {
    /// The scheme with its colon: `http:` or `https:`.
    pub scheme: Seq<char>,
    /// Scheme and authority: `https://host`.
    pub origin: Seq<char>,
    /// The path: empty, or beginning with `/`.
    pub path: Seq<char>,
    /// The query: empty, or beginning with `?`.
    pub query: Seq<char>,
}

/// Whether `c` ends the component `part`.
pub open spec fn ends_part(part: UrlPart, c: char) -> bool {
    match part {
        UrlPart::Authority => c == '/' || c == '?' || c == '#',
        UrlPart::Path => c == '?' || c == '#',
        UrlPart::Query => c == '#',
    }
}

/// Where the component `part` that begins at `from` ends: the position of
/// the first character at or after `from` that ends it, or the length of `s`.
pub open spec fn part_end(s: Seq<char>, from: int, part: UrlPart) -> int
    decreases s.len() - from,
{
    if from < 0 || from >= s.len() {
        s.len() as int
    } else if ends_part(part, s[from]) {
        from
    } else {
        part_end(s, from + 1, part)
    }
}

/// The length of the `http://` or `https://` that `url` begins with.
pub open spec fn http_prefix_len(url: Seq<char>) -> Option<int> {
    if starts_with_text(url, "http://"@) {
        Some("http://"@.len() as int)
    } else if starts_with_text(url, "https://"@) {
        Some("https://"@.len() as int)
    } else {
        None
    }
}

/// The parts of the page's URL, or why it cannot serve as a base.
pub open spec fn parse_base(base: Seq<char>) -> Result<BaseUrl, ResolutionError> {
    match http_prefix_len(base) {
        None => Err(ResolutionError::UnsupportedScheme),
        Some(prefix) => {
            let host_end = part_end(base, prefix, UrlPart::Authority);
            let path_end = part_end(base, host_end, UrlPart::Path);
            let query_end = part_end(base, path_end, UrlPart::Query);
            if host_end == prefix {
                Err(ResolutionError::MissingHost)
            } else {
                Ok(
                    BaseUrl {
                        scheme: base.subrange(0, prefix - 2),
                        origin: base.subrange(0, host_end),
                        path: base.subrange(host_end, path_end),
                        query: base.subrange(path_end, query_end),
                    },
                )
            }
        },
    }
}

/// The length of `path` up to and including its last `/`; 0 if it has none.
pub open spec fn directory_len(path: Seq<char>) -> int
    decreases path.len(),
{
    if path.len() == 0 {
        0
    } else if path.last() == '/' {
        path.len() as int
    } else {
        directory_len(path.drop_last())
    }
}

/// The directory of `path`: `path` up to and including its last `/`, or `/`
/// alone where it has none.
pub open spec fn directory_of(path: Seq<char>) -> Seq<char> {
    if directory_len(path) == 0 {
        seq!['/']
    } else {
        path.subrange(0, directory_len(path))
    }
}

/// The segment `.` or `..`.
pub open spec fn is_dot_segment(segment: Seq<char>) -> bool {
    segment == seq!['.'] || segment == seq!['.', '.']
}

/// The segments that are kept after `segment` has been read: `.` changes
/// nothing, `..` drops the segment before it, any other segment is added.
pub open spec fn apply_segment(kept: Seq<Seq<char>>, segment: Seq<char>) -> Seq<Seq<char>> {
    if segment == seq!['.'] {
        kept
    } else if segment == seq!['.', '.'] {
        if kept.len() > 0 {
            kept.drop_last()
        } else {
            kept
        }
    } else {
        kept.push(segment)
    }
}

/// The segments that are kept after all of `segments` have been read.
pub open spec fn fold_segments(segments: Seq<Seq<char>>) -> Seq<Seq<char>>
    decreases segments.len(),
{
    if segments.len() == 0 {
        Seq::empty()
    } else {
        apply_segment(fold_segments(segments.drop_last()), segments.last())
    }
}

/// The segments of a path without `.` and `..`. A path that ends in `.` or
/// `..` names a directory, so its result ends with an empty segment.
pub open spec fn resolved_segments(segments: Seq<Seq<char>>) -> Seq<Seq<char>> {
    let kept = fold_segments(segments);
    if segments.len() > 0 && is_dot_segment(segments.last()) {
        kept.push(Seq::empty())
    } else {
        kept
    }
}

/// The path made of `segments`, each behind a `/`.
pub open spec fn join_segments(segments: Seq<Seq<char>>) -> Seq<char>
    decreases segments.len(),
{
    if segments.len() == 0 {
        Seq::empty()
    } else {
        join_segments(segments.drop_last()) + seq!['/'] + segments.last()
    }
}

/// `path`, which begins with `/`, without its `.` and `..` segments.
pub open spec fn remove_dot_segments(path: Seq<char>) -> Seq<char> {
    join_segments(resolved_segments(split_on(path.drop_first(), '/')))
}

/// What a reference that is neither absolute nor rooted adds to the origin:
/// the page's own path where the reference has no path, else the reference's
/// path read from the page's directory, without `.` and `..`; then the
/// reference's query and fragment.
pub open spec fn relative_target(path: Seq<char>, query: Seq<char>, raw: Seq<char>) -> Seq<char> {
    let cut = part_end(raw, 0, UrlPart::Path);
    if cut == 0 {
        if raw.len() > 0 && raw[0] == '?' {
            path + raw
        } else {
            path + query + raw
        }
    } else {
        remove_dot_segments(directory_of(path) + raw.subrange(0, cut)) + raw.subrange(
            cut,
            raw.len() as int,
        )
    }
}

/// The absolute URL that `raw` names on the page at `base`.
///
/// A reference that begins with `http://` or `https://` stands as it is. One
/// that begins with `//` takes the page's scheme, one that begins with `/`
/// the page's scheme and host, and any other is read from the page's
/// directory.
pub open spec fn resolve_url(base: Seq<char>, raw: Seq<char>) -> Result<Seq<char>, ResolutionError> {
    if http_prefix_len(raw) is Some {
        Ok(raw)
    } else {
        match parse_base(base) {
            Err(e) => Err(e),
            Ok(parts) => Ok(
                if starts_with_text(raw, "//"@) {
                    parts.scheme + raw
                } else if starts_with_text(raw, "/"@) {
                    parts.origin + raw
                } else {
                    parts.origin + relative_target(parts.path, parts.query, raw)
                },
            ),
        }
    }
}

/// Whether `c` ends the component `part`.
pub fn is_part_end(part: UrlPart, c: char) -> (ends: bool)
    ensures
        ends == ends_part(part, c),
{
    match part {
        UrlPart::Authority => c == '/' || c == '?' || c == '#',
        UrlPart::Path => c == '?' || c == '#',
        UrlPart::Query => c == '#',
    }
}

/// Where the component `part` that begins at `from` ends.
pub fn scan_part(s: &Vec<char>, from: usize, part: UrlPart) -> (end: usize)
    requires
        from <= s.len(),
    ensures
        end == part_end(s@, from as int, part),
        from <= end <= s.len(),
{
    let mut i: usize = from;
    while i < s.len()
        invariant
            from <= i <= s.len(),
            part_end(s@, from as int, part) == part_end(s@, i as int, part),
        decreases s.len() - i,
    {
        if is_part_end(part, s[i]) {
            return i;
        }
        i += 1;
    }
    i
}

/// The length of the `http://` or `https://` that `url` begins with.
pub fn http_prefix(url: &Vec<char>) -> (prefix: Option<usize>)
    ensures
        match prefix {
            Some(n) => http_prefix_len(url@) == Some(n as int) && 7 <= n <= 8 && n <= url.len(),
            None => http_prefix_len(url@) is None,
        },
{
    proof {
        reveal_strlit("http://");
        reveal_strlit("https://");
    }
    let plain = chars_of("http://");
    let secure = chars_of("https://");
    if starts_with_chars(url, &plain) {
        Some(plain.len())
    } else if starts_with_chars(url, &secure) {
        Some(secure.len())
    } else {
        None
    }
}

/// The length of `s[from..to]` up to and including its last `/`.
pub fn directory_length(s: &Vec<char>, from: usize, to: usize) -> (len: usize)
    requires
        from <= to <= s.len(),
    ensures
        len == directory_len(s@.subrange(from as int, to as int)),
        len <= to - from,
{
    let ghost path = s@.subrange(from as int, to as int);
    let mut end: usize = to;
    assert(path.take(path.len() as int) == path);
    while end > from
        invariant
            from <= end <= to <= s.len(),
            path == s@.subrange(from as int, to as int),
            directory_len(path) == directory_len(path.take(end - from)),
        decreases end - from,
    {
        if s[end - 1] == '/' {
            assert(path.take(end - from).last() == s@[end - 1]);
            return end - from;
        }
        assert(path.take(end - from).drop_last() == path.take(end - from - 1));
        assert(path.take(end - from).last() == s@[end - 1]);
        end -= 1;
    }
    0
}

/// Whether `segment` is `.`.
fn is_dot(segment: &Vec<char>) -> (dot: bool)
    ensures
        dot == (segment@ == seq!['.']),
{
    let dot = segment.len() == 1 && segment[0] == '.';
    assert(dot ==> segment@ =~= seq!['.']);
    assert(segment@ == seq!['.'] ==> segment@.len() == 1 && segment@[0] == '.');
    dot
}

/// Whether `segment` is `..`.
fn is_dot_dot(segment: &Vec<char>) -> (dots: bool)
    ensures
        dots == (segment@ == seq!['.', '.']),
{
    let dots = segment.len() == 2 && segment[0] == '.' && segment[1] == '.';
    assert(dots ==> segment@ =~= seq!['.', '.']);
    assert(segment@ == seq!['.', '.'] ==> segment@.len() == 2 && segment@[0] == '.' && segment@[1]
        == '.');
    dots
}

/// The segments of a path without `.` and `..`.
pub fn resolve_segments(segments: Vec<Vec<char>>) -> (kept: Vec<Vec<char>>)
    ensures
        chars_views(kept@) == resolved_segments(chars_views(segments@)),
{
    let ghost all = chars_views(segments@);
    let mut kept: Vec<Vec<char>> = Vec::new();
    let mut after_dots = false;
    assert(all.take(0) == Seq::<Seq<char>>::empty());
    for segment in rest: segments.into_iter()
        invariant
            rest.seq() == segments@,
            all == chars_views(segments@),
            chars_views(kept@) == fold_segments(all.take(rest.index())),
            after_dots == (rest.index() > 0 && is_dot_segment(all[rest.index() - 1])),
    {
        proof {
            assert(all.take(rest.index() + 1).drop_last() == all.take(rest.index()));
            assert(all.take(rest.index() + 1).last() == segment@);
        }
        let ghost before = chars_views(kept@);
        if is_dot(&segment) {
            after_dots = true;
        } else if is_dot_dot(&segment) {
            kept.pop();
            after_dots = true;
            assert(chars_views(kept@) == apply_segment(before, segment@));
        } else {
            kept.push(segment);
            after_dots = false;
            assert(chars_views(kept@) == apply_segment(before, segment@));
        }
    }
    assert(all.take(all.len() as int) == all);
    if after_dots {
        let ghost before = chars_views(kept@);
        kept.push(Vec::new());
        assert(chars_views(kept@) == before.push(Seq::<char>::empty()));
    }
    kept
}

/// Appends the path made of `segments`, each behind a `/`, to `out`.
pub fn append_segments(out: &mut Vec<char>, segments: &Vec<Vec<char>>)
    ensures
        final(out)@ == old(out)@ + join_segments(chars_views(segments@)),
{
    let ghost all = chars_views(segments@);
    let mut i: usize = 0;
    assert(all.take(0) == Seq::<Seq<char>>::empty());
    while i < segments.len()
        invariant
            i <= segments.len(),
            all == chars_views(segments@),
            out@ == old(out)@ + join_segments(all.take(i as int)),
        decreases segments.len() - i,
    {
        proof {
            assert(all.take(i + 1).drop_last() == all.take(i as int));
            assert(all.take(i + 1).last() == segments@[i as int]@);
        }
        let ghost before = out@;
        out.push('/');
        let segment = &segments[i];
        append_range(out, segment, 0, segment.len());
        proof {
            assert(segment@.subrange(0, segment@.len() as int) == segment@);
            assert(out@ == before + seq!['/'] + segment@);
            assert(out@ == old(out)@ + join_segments(all.take(i + 1)));
        }
        i += 1;
    }
    assert(all.take(i as int) == all);
}

/// Appends what the reference `raw` adds to the origin of the page whose
/// URL is `base`, with its path from `host_end` to `path_end` and its query
/// up to `query_end`.
pub fn append_relative(
    out: &mut Vec<char>,
    base: &Vec<char>,
    host_end: usize,
    path_end: usize,
    query_end: usize,
    raw: &Vec<char>,
)
    requires
        host_end <= path_end <= query_end <= base.len(),
        host_end < path_end ==> base@[host_end as int] == '/',
    ensures
        final(out)@ == old(out)@ + relative_target(
            base@.subrange(host_end as int, path_end as int),
            base@.subrange(path_end as int, query_end as int),
            raw@,
        ),
{
    let ghost path = base@.subrange(host_end as int, path_end as int);
    let ghost query = base@.subrange(path_end as int, query_end as int);
    let cut = scan_part(raw, 0, UrlPart::Path);
    if cut == 0 {
        append_range(out, base, host_end, path_end);
        if !(raw.len() > 0 && raw[0] == '?') {
            append_range(out, base, path_end, query_end);
        }
        append_range(out, raw, 0, raw.len());
        assert(raw@.subrange(0, raw@.len() as int) == raw@);
    } else {
        let dir = directory_length(base, host_end, path_end);
        let mut tail: Vec<char> = Vec::new();
        if dir > 0 {
            append_range(&mut tail, base, host_end + 1, host_end + dir);
        }
        append_range(&mut tail, raw, 0, cut);
        proof {
            let merged = directory_of(path) + raw@.subrange(0, cut as int);
            if dir > 0 {
                assert(path.subrange(0, dir as int).drop_first() == base@.subrange(
                    host_end + 1,
                    host_end + dir,
                ));
            }
            assert(merged.drop_first() == tail@);
        }
        let segments = split_chars(&tail, '/');
        let kept = resolve_segments(segments);
        append_segments(out, &kept);
        append_range(out, raw, cut, raw.len());
    }
}

/// The absolute URL that the reference `raw` names on the page at `base`.
pub fn resolve(base: &str, raw: &str) -> (resolved: Result<String, ResolutionError>)
    ensures
        match resolved {
            Ok(url) => resolve_url(base@, raw@) == Ok::<Seq<char>, ResolutionError>(url@),
            Err(e) => resolve_url(base@, raw@) == Err::<Seq<char>, ResolutionError>(e),
        },
{
    let reference = chars_of(raw);
    if http_prefix(&reference).is_some() {
        return Ok(raw.to_owned());
    }
    let page = chars_of(base);
    let prefix = match http_prefix(&page) {
        Some(n) => n,
        None => {
            return Err(ResolutionError::UnsupportedScheme);
        },
    };
    let host_end = scan_part(&page, prefix, UrlPart::Authority);
    if host_end == prefix {
        return Err(ResolutionError::MissingHost);
    }
    let path_end = scan_part(&page, host_end, UrlPart::Path);
    let query_end = scan_part(&page, path_end, UrlPart::Query);
    let mut out: Vec<char> = Vec::new();
    let double_slash = chars_of("//");
    let slash = chars_of("/");
    if starts_with_chars(&reference, &double_slash) {
        append_range(&mut out, &page, 0, prefix - 2);
        append_range(&mut out, &reference, 0, reference.len());
        assert(reference@.subrange(0, reference@.len() as int) == reference@);
    } else if starts_with_chars(&reference, &slash) {
        append_range(&mut out, &page, 0, host_end);
        append_range(&mut out, &reference, 0, reference.len());
        assert(reference@.subrange(0, reference@.len() as int) == reference@);
    } else {
        append_range(&mut out, &page, 0, host_end);
        proof {
            lemma_part_end_stops(page@, prefix as int, UrlPart::Authority);
        }
        append_relative(&mut out, &page, host_end, path_end, query_end, &reference);
    }
    Ok(string_from_chars(&out))
}

/// A component ends at a character that ends it, or at the end of the text,
/// and holds no such character before.
pub proof fn lemma_part_end_stops(s: Seq<char>, from: int, part: UrlPart)
    requires
        0 <= from <= s.len(),
    ensures
        from <= part_end(s, from, part) <= s.len(),
        part_end(s, from, part) < s.len() ==> ends_part(part, s[part_end(s, from, part)]),
        forall|i: int| from <= i < part_end(s, from, part) ==> !ends_part(part, #[trigger] s[i]),
    decreases s.len() - from,
{
    if from < s.len() && !ends_part(part, s[from]) {
        lemma_part_end_stops(s, from + 1, part);
    }
}

} // verus!
