//! Which URLs of asset attributes are turned into imports.
use vstd::prelude::*;

use crate::analyzer::scope::{contains_str, spec_contains};
use crate::templates::ast_optimizer::{is_blank, is_whitespace, spec_is_blank, spec_is_whitespace};
use crate::text::{chars_of, decimal, push_decimal, push_str, str_eq, string_from_range, to_owned_string};

verus! {

/// `~/x` and `~x` become `x`; other URLs stay as they are.
pub open spec fn spec_strip_prefix(url: Seq<char>) -> Seq<char> {
    if url.len() > 0 && url[0] == '~' {
        let rest = url.skip(1);
        if rest.len() > 0 && rest[0] == '/' {
            rest.skip(1)
        } else {
            rest
        }
    } else {
        url
    }
}

pub fn strip_prefix(url: &str) -> (r: String)
    ensures
        r@ == spec_strip_prefix(url@),
{
    let chars = chars_of(url);
    let mut start: usize = 0;
    if chars.len() > 0 && chars[0] == '~' {
        start = 1;
        if chars.len() > 1 && chars[1] == '/' {
            start = 2;
        }
    }
    let r = string_from_range(&chars, start, chars.len());
    proof {
        if start == 2 {
            assert(r@ =~= url@.skip(1).skip(1));
        } else if start == 1 {
            assert(r@ =~= url@.skip(1));
        } else {
            assert(r@ =~= url@);
        }
    }
    r
}

/// URLs that start with `.`, `~` or `@`.
pub open spec fn spec_is_relative_url(url: Seq<char>) -> bool {
    url.len() > 0 && (url[0] == '.' || url[0] == '~' || url[0] == '@')
}

pub fn is_relative_url(url: &str) -> (r: bool)
    ensures
        r == spec_is_relative_url(url@),
{
    let chars = chars_of(url);
    chars.len() > 0 && (chars[0] == '.' || chars[0] == '~' || chars[0] == '@')
}

/// Whether `s` starts with `prefix`.
pub open spec fn starts_with(s: Seq<char>, prefix: Seq<char>) -> bool {
    prefix.len() <= s.len() && s.take(prefix.len() as int) == prefix
}

pub(crate) fn chars_start_with(chars: &Vec<char>, from: usize, prefix: &str) -> (r: bool)
    requires
        from <= chars.len(),
    ensures
        r == starts_with(chars@.skip(from as int), prefix@),
{
    let p = chars_of(prefix);
    if p.len() > chars.len() - from {
        return false;
    }
    let mut k: usize = 0;
    while k < p.len()
        invariant
            p@ == prefix@,
            from + p.len() <= chars.len(),
            k <= p.len(),
            forall|j: int| 0 <= j < k ==> chars@[from + j] == p@[j],
        decreases p.len() - k,
    {
        if chars[from + k] != p[k] {
            assert(chars@.skip(from as int).take(p.len() as int)[k as int] != prefix@[k as int]);
            return false;
        }
        k = k + 1;
    }
    assert(chars@.skip(from as int).take(p.len() as int) =~= prefix@);
    true
}

/// URLs that start with `http://`, `https://` or `//`.
pub open spec fn spec_is_external_url(url: Seq<char>) -> bool {
    starts_with(url, "http://"@) || starts_with(url, "https://"@) || starts_with(url, "//"@)
}

pub fn is_external_url(url: &str) -> (r: bool)
    ensures
        r == spec_is_external_url(url@),
{
    let chars = chars_of(url);
    assert(chars@.skip(0) =~= url@);
    chars_start_with(&chars, 0, "http://") || chars_start_with(&chars, 0, "https://") || chars_start_with(&chars, 0, "//")
}

/// The index of the first non-whitespace character at or after `i`.
pub open spec fn skip_whitespace(s: Seq<char>, i: int) -> int
    decreases s.len() - i,
{
    if 0 <= i < s.len() && spec_is_whitespace(s[i]) {
        skip_whitespace(s, i + 1)
    } else {
        i
    }
}

/// URLs that start with `data:` once leading whitespace is left out.
pub open spec fn spec_is_data_url(url: Seq<char>) -> bool {
    starts_with(url.skip(skip_whitespace(url, 0)), "data:"@)
}

pub fn is_data_url(url: &str) -> (r: bool)
    ensures
        r == spec_is_data_url(url@),
{
    let chars = chars_of(url);
    let mut i: usize = 0;
    while i < chars.len() && is_whitespace(chars[i])
        invariant
            chars@ == url@,
            i <= chars.len(),
            skip_whitespace(url@, 0) == skip_whitespace(url@, i as int),
        decreases chars.len() - i,
    {
        i = i + 1;
    }
    chars_start_with(&chars, i, "data:")
}

/// Whether the attribute `name="value"` of an element is an asset URL to turn into
/// an import: the attribute is listed for the element's tag (`tag_attrs`) or for
/// every tag (`wildcard_attrs`), and the value is a non-blank, local URL that is
/// not a fragment; an absolute one only when `include_absolute` holds.
pub open spec fn spec_is_asset_url(tag_attrs: Seq<String>, wildcard_attrs: Seq<String>, name: Seq<char>, value: Seq<char>, include_absolute: bool) -> bool {
    !((!spec_contains(tag_attrs, name) && !spec_contains(wildcard_attrs, name)) || spec_is_blank(value)
        || spec_is_external_url(value) || spec_is_data_url(value) || (value.len() > 0 && value[0] == '#')
        || (!include_absolute && !spec_is_relative_url(value)))
}

pub fn is_asset_url(tag_attrs: &Vec<String>, wildcard_attrs: &Vec<String>, name: &str, value: &str, include_absolute: bool) -> (r: bool)
    ensures
        r == spec_is_asset_url(tag_attrs@, wildcard_attrs@, name@, value@, include_absolute),
{
    let chars = chars_of(value);
    !((!contains_str(tag_attrs, name) && !contains_str(wildcard_attrs, name)) || is_blank(value) || is_external_url(value)
        || is_data_url(value) || (chars.len() > 0 && chars[0] == '#') || (!include_absolute && !is_relative_url(value)))
}

/// The index of the first `#` of `s`, or its length.
pub open spec fn hash_index(s: Seq<char>, i: int) -> int
    decreases s.len() - i,
{
    if i < 0 || i >= s.len() {
        s.len() as int
    } else if s[i] == '#' {
        i
    } else {
        hash_index(s, i + 1)
    }
}

/// A path and its fragment: `a.png#frag` is `a.png` and `#frag`.
pub fn split_hash(path: &str) -> (r: (String, Option<String>))
    ensures
        ({
            let h = hash_index(path@, 0);
            &&& r.0@ == path@.take(h)
            &&& match r.1 {
                Some(f) => h < path@.len() && f@ == path@.skip(h),
                None => h == path@.len(),
            }
        }),
{
    let chars = chars_of(path);
    let mut i: usize = 0;
    while i < chars.len() && chars[i] != '#'
        invariant
            chars@ == path@,
            i <= chars.len(),
            hash_index(path@, 0) == hash_index(path@, i as int),
        decreases chars.len() - i,
    {
        i = i + 1;
    }
    let head = string_from_range(&chars, 0, i);
    assert(head@ =~= path@.take(i as int));
    if i < chars.len() {
        let hash = string_from_range(&chars, i, chars.len());
        assert(hash@ =~= path@.skip(i as int));
        (head, Some(hash))
    } else {
        (head, None)
    }
}

/// What `percent_encoding::percent_decode_str(path).decode_utf8()` gives: the
/// path with its `%XX` sequences decoded, when the result is UTF-8.
pub uninterp spec fn percent_decoded(path: Seq<char>) -> Option<Seq<char>>;

/// Decodes the `%XX` sequences of `path` (`percent_decode_str(path).decode_utf8()`);
/// `None` when the decoded bytes are not UTF-8. The result is named; of it the
/// contract states that a path without `%` decodes to itself.
#[verifier::external_body]
fn percent_decode_utf8(path: &str) -> (r: Option<String>)
    ensures
        percent_decoded(path@) == match r {
            Some(s) => Some(s@),
            None => None,
        },
        !path@.contains('%') ==> r is Some && r->0@ == path@,
{
    percent_encoding::percent_decode_str(path).decode_utf8().ok().map(|s| s.into_owned())
}

/// What an asset URL becomes.
#[derive(Debug)]
pub enum AssetImport {
    /// An empty path: the empty string
    Empty,
    /// The default import `name` of the asset, followed by `hash` when there is one
    Import { name: String, hash: Option<String> },
}

/// Why an asset URL could not be turned into an import.
#[derive(Clone, Copy, PartialEq, Eq, Structural, Debug)]
pub enum AssetUrlError {
    UrlParseFailed,
    /// The `base` option is not a URL
    BaseUrlParseFailed,
}

/// The index of the first import whose source is `path`.
pub open spec fn import_index(imports: Seq<String>, path: Seq<char>, i: int) -> int
    decreases imports.len() - i,
{
    if i < 0 || i >= imports.len() {
        imports.len() as int
    } else if imports[i]@ == path {
        i
    } else {
        import_index(imports, path, i + 1)
    }
}

pub open spec fn import_name(i: nat) -> Seq<char> {
    "_imports_"@ + decimal(i)
}

/// Whether `r` is the import named `name` with the fragment `hash`.
pub open spec fn is_import(r: Result<AssetImport, AssetUrlError>, name: Seq<char>, hash: Option<Seq<char>>) -> bool {
    match r {
        Ok(AssetImport::Import { name: n, hash: h }) => n@ == name && match h {
            Some(x) => hash == Some(x@),
            None => hash is None,
        },
        _ => false,
    }
}

/// The outcome of importing the non-empty `path`: an import of the same source is
/// reused; else the decoded path is added and named by its position; a path that
/// does not decode is an error.
pub open spec fn import_outcome(before: Seq<String>, after: Seq<String>, path: Seq<char>, r: Result<AssetImport, AssetUrlError>, hash: Option<Seq<char>>) -> bool {
    let i = import_index(before, path, 0);
    if i < before.len() {
        after == before && is_import(r, import_name(i as nat), hash)
    } else {
        match percent_decoded(path) {
            Some(decoded) => after.len() == before.len() + 1 && after.take(before.len() as int) == before
                && after.last()@ == decoded && is_import(r, import_name(before.len()), hash),
            None => r == Err::<AssetImport, AssetUrlError>(AssetUrlError::UrlParseFailed) && after == before,
        }
    }
}

/// The import of the asset at `path` (with the fragment `hash`): an import of the
/// same source is reused, else the decoded path is added to `imports` and named
/// by its position; a path that does not decode is an error.
pub fn get_import_expression(path: &str, hash: Option<&str>, imports: &mut Vec<String>) -> (r: Result<AssetImport, AssetUrlError>)
    requires
        old(imports)@.len() < u64::MAX,
    ensures
        path@.len() == 0 ==> (r matches Ok(AssetImport::Empty)) && final(imports)@ == old(imports)@,
        path@.len() > 0 ==> import_outcome(old(imports)@, final(imports)@, path@, r, match hash {
            Some(y) => Some(y@),
            None => None,
        }),
{
    if chars_of(path).len() == 0 {
        return Ok(AssetImport::Empty);
    }
    let mut i: usize = 0;
    while i < imports.len() && !str_eq(imports[i].as_str(), path)
        invariant
            i <= imports.len(),
            import_index(imports@, path@, 0) == import_index(imports@, path@, i as int),
        decreases imports.len() - i,
    {
        i = i + 1;
    }
    let index = if i < imports.len() {
        i
    } else {
        let Some(decoded) = percent_decode_utf8(path) else {
            return Err(AssetUrlError::UrlParseFailed);
        };
        let n = imports.len();
        imports.push(decoded);
        assert(imports@.take(n as int) =~= old(imports)@);
        n
    };
    let mut name = to_owned_string("_imports_");
    push_decimal(&mut name, index as u64);
    let hash = match hash {
        Some(h) => Some(to_owned_string(h)),
        None => None,
    };
    Ok(AssetImport::Import { name, hash })
}

/// Turns the value of an asset URL attribute into an import (when no base is set):
/// `~` and `~/` are dropped, and a fragment is kept apart.
pub fn asset_url_import(value: &str, imports: &mut Vec<String>) -> (r: Result<AssetImport, AssetUrlError>)
    requires
        old(imports)@.len() < u64::MAX,
    ensures
        ({
            let path = spec_strip_prefix(value@);
            let h = hash_index(path, 0);
            let fragment = if h < path.len() { Some(path.skip(h)) } else { None };
            if path.take(h).len() == 0 {
                (r matches Ok(AssetImport::Empty)) && final(imports)@ == old(imports)@
            } else {
                import_outcome(old(imports)@, final(imports)@, path.take(h), r, fragment)
            }
        }),
{
    let path = strip_prefix(value);
    let (head, hash) = split_hash(path.as_str());
    let hash_ref: Option<&str> = match &hash {
        Some(h) => Some(h.as_str()),
        None => None,
    };
    proof {
        lemma_import_index_bound(old(imports)@, head@, 0);
    }
    get_import_expression(head.as_str(), hash_ref, imports)
}

pub proof fn lemma_import_index_bound(imports: Seq<String>, path: Seq<char>, i: int)
    requires
        0 <= i,
    ensures
        i <= imports.len() ==> i <= import_index(imports, path, i) <= imports.len(),
        import_index(imports, path, i) < imports.len() ==> imports[import_index(imports, path, i)]@ == path,
    decreases imports.len() - i,
{
    if i < imports.len() && imports[i]@ != path {
        lemma_import_index_bound(imports, path, i + 1);
    }
}

// ---------------------------------------------------------------------------
// Relative URLs under an explicit base.
// ---------------------------------------------------------------------------

/// The parts of a parsed URL that the rewriting reads.
pub struct UrlParts {
    pub scheme: String,
    pub host: Option<String>,
    pub port: Option<u16>,
    pub path: String,
}

pub open spec fn url_parts_view(p: Option<UrlParts>) -> Option<(Seq<char>, Option<Seq<char>>, Option<u16>, Seq<char>)> {
    match p {
        Some(u) => Some((u.scheme@, match u.host {
            Some(h) => Some(h@),
            None => None,
        }, u.port, u.path@)),
        None => None,
    }
}

/// What `Url::parse("http://_")` joined with `input` (`Url::join`) gives, taken
/// apart by `scheme()`, `host_str()`, `port()` and `path()`; `None` when the join
/// fails.
pub uninterp spec fn joined_on_placeholder(input: Seq<char>) -> Option<(Seq<char>, Option<Seq<char>>, Option<u16>, Seq<char>)>;

/// Parses `input` relative to the placeholder base `http://_` (`Url::join` of the
/// `url` crate) and takes the result apart. The result is named: nothing more is
/// stated of it.
#[verifier::external_body]
fn join_on_placeholder(input: &str) -> (r: Option<UrlParts>)
    ensures
        url_parts_view(r) == joined_on_placeholder(input@),
{
    let base = url::Url::parse("http://_").ok()?;
    let u = base.join(input).ok()?;
    Some(UrlParts {
        scheme: u.scheme().to_string(),
        host: u.host_str().map(|h| h.to_string()),
        port: u.port(),
        path: u.path().to_string(),
    })
}

/// The text of one component of a path: nothing for an empty one and for `.`,
/// `..` as it is, and `/name` for a name.
pub open spec fn component_text(c: Seq<char>) -> Seq<char> {
    if c.len() == 0 || c == "."@ {
        Seq::empty()
    } else if c == ".."@ {
        ".."@
    } else {
        "/"@ + c
    }
}

/// The texts of the components of `j` from the one that starts at `start`, the
/// scan being at `i`.
pub open spec fn components_text(j: Seq<char>, start: int, i: int) -> Seq<char>
    decreases j.len() - i,
{
    if i < start || start < 0 || i >= j.len() {
        if 0 <= start <= j.len() { component_text(j.subrange(start, j.len() as int)) } else { Seq::empty() }
    } else if j[i] == '/' {
        component_text(j.subrange(start, i)) + components_text(j, i + 1, i + 1)
    } else {
        components_text(j, start, i + 1)
    }
}

/// `path` followed by `rel` as a path joins them: with a `/` between them unless
/// `path` is empty or ends with one.
pub open spec fn joined_path(path: Seq<char>, rel: Seq<char>) -> Seq<char> {
    if path.len() == 0 || path.last() == '/' { path + rel } else { path + "/"@ + rel }
}

/// The path `j` written back from its components: a relative path that starts
/// with `.` keeps it, the root is dropped, names follow a `/` and `..` stands
/// alone.
pub open spec fn path_text(j: Seq<char>) -> Seq<char> {
    (if j.len() > 0 && j[0] == '.' && (j.len() == 1 || j[1] == '/') { "."@ } else { Seq::empty() })
        + components_text(j, 0, 0)
}

/// `scheme://host:port` of a base that names one (`//host` for a base written
/// `//host`), nothing for a base that is only a path.
pub open spec fn base_origin(base: Seq<char>, scheme: Seq<char>, host: Option<Seq<char>>, port: Option<u16>) -> Seq<char> {
    let double_slash = starts_with(base, "//"@);
    let is_placeholder = scheme == "http"@ && !starts_with(base, "http"@) && !double_slash;
    if is_placeholder {
        Seq::empty()
    } else {
        match host {
            Some(h) => (if double_slash { "//"@ } else { scheme + "://"@ }) + h + match port {
                Some(p) => ":"@ + decimal(p as nat),
                None => Seq::empty(),
            },
            None => Seq::empty(),
        }
    }
}

/// The relative URL `value` under the base `base`: the base parsed on the
/// placeholder `http://_`, its origin, then its path joined with `value`;
/// `None` when the base does not parse.
pub open spec fn spec_base_rewrite(base: Seq<char>, value: Seq<char>) -> Option<Seq<char>> {
    match joined_on_placeholder(spec_strip_prefix(base)) {
        Some((scheme, host, port, path)) => Some(base_origin(base, scheme, host, port)
            + path_text(joined_path(path, spec_strip_prefix(value)))),
        None => None,
    }
}

fn push_component(out: &mut String, chars: &Vec<char>, start: usize, end: usize)
    requires
        start <= end <= chars.len(),
    ensures
        final(out)@ == old(out)@ + component_text(chars@.subrange(start as int, end as int)),
{
    let c = string_from_range(chars, start, end);
    if end == start || str_eq(c.as_str(), ".") {
        proof { reveal_strlit("."); }
        assert(old(out)@ + component_text(chars@.subrange(start as int, end as int)) =~= old(out)@);
    } else if str_eq(c.as_str(), "..") {
        push_str(out, "..");
        proof { reveal_strlit("."); reveal_strlit(".."); }
    } else {
        push_str(out, "/");
        push_str(out, c.as_str());
        proof { reveal_strlit("."); reveal_strlit(".."); reveal_strlit("/"); }
        assert(out@ =~= old(out)@ + component_text(chars@.subrange(start as int, end as int)));
    }
}

/// Writes the path `j` back from its components (see [`path_text`]).
pub fn write_path(j: &str, out: &mut String)
    ensures
        final(out)@ == old(out)@ + path_text(j@),
{
    let chars = chars_of(j);
    let ghost start0 = out@;
    if chars.len() > 0 && chars[0] == '.' && (chars.len() == 1 || chars[1] == '/') {
        push_str(out, ".");
        proof { reveal_strlit("."); }
    }
    let ghost lead = out@;
    let mut start: usize = 0;
    let mut i: usize = 0;
    while i < chars.len()
        invariant
            chars@ == j@,
            start <= i <= chars.len(),
            out@ + components_text(j@, start as int, i as int) == lead + components_text(j@, 0, 0),
        decreases chars.len() - i,
    {
        if chars[i] == '/' {
            let ghost before = out@;
            push_component(out, &chars, start, i);
            assert(before + components_text(j@, start as int, i as int)
                =~= out@ + components_text(j@, i + 1, i + 1));
            i = i + 1;
            start = i;
        } else {
            i = i + 1;
        }
    }
    let ghost before = out@;
    push_component(out, &chars, start, i);
    assert(before + components_text(j@, start as int, i as int) =~= out@);
    assert(out@ =~= start0 + path_text(j@));
}

/// The relative URL `value` rewritten under the base `base` (see
/// [`spec_base_rewrite`]); `None` when the base does not parse.
pub fn rewrite_base_url(value: &str, base: &str) -> (r: Option<String>)
    ensures
        match r {
            Some(s) => spec_base_rewrite(base@, value@) == Some(s@),
            None => spec_base_rewrite(base@, value@) is None,
        },
{
    let stripped_base = strip_prefix(base);
    let parts = match join_on_placeholder(stripped_base.as_str()) {
        Some(p) => p,
        None => return None,
    };
    let base_chars = chars_of(base);
    assert(base_chars@.skip(0) =~= base@);
    let double_slash = chars_start_with(&base_chars, 0, "//");
    let is_placeholder = str_eq(parts.scheme.as_str(), "http") && !chars_start_with(&base_chars, 0, "http") && !double_slash;
    let mut out = String::new();
    if !is_placeholder {
        match &parts.host {
            Some(h) => {
                if double_slash {
                    push_str(&mut out, "//");
                } else {
                    push_str(&mut out, parts.scheme.as_str());
                    push_str(&mut out, "://");
                }
                push_str(&mut out, h.as_str());
                match parts.port {
                    Some(p) => {
                        push_str(&mut out, ":");
                        push_decimal(&mut out, p as u64);
                    },
                    None => {},
                }
            },
            None => {},
        }
    }
    assert(out@ =~= base_origin(base@, parts.scheme@, match parts.host {
        Some(h) => Some(h@),
        None => None,
    }, parts.port));
    let rel = strip_prefix(value);
    let path_chars = chars_of(parts.path.as_str());
    let mut joined = String::new();
    push_str(&mut joined, parts.path.as_str());
    if path_chars.len() > 0 && path_chars[path_chars.len() - 1] != '/' {
        push_str(&mut joined, "/");
    }
    push_str(&mut joined, rel.as_str());
    proof { reveal_strlit("/"); }
    assert(joined@ =~= joined_path(parts.path@, rel@));
    write_path(joined.as_str(), &mut out);
    Some(out)
}

/// What the value of an asset URL attribute becomes.
#[derive(Debug)]
pub enum AssetUrlRewrite {
    /// A relative URL rewritten under the base
    Rewritten(String),
    /// An import of the asset
    Import(AssetImport),
}

/// The value of an asset URL attribute rewritten: under an explicit `base`, a
/// URL that starts with `.` is rewritten in place (an error when the base does
/// not parse); any other is turned into an import (see [`asset_url_import`]).
pub fn rewrite_asset_url(value: &str, base: Option<&str>, imports: &mut Vec<String>) -> (r: Result<AssetUrlRewrite, AssetUrlError>)
    requires
        old(imports)@.len() < u64::MAX,
    ensures
        ({
            let path = spec_strip_prefix(value@);
            let h = hash_index(path, 0);
            let fragment = if h < path.len() { Some(path.skip(h)) } else { None };
            match base {
                Some(b) if value@.len() > 0 && value@[0] == '.' => final(imports)@ == old(imports)@ && match spec_base_rewrite(b@, value@) {
                    Some(s) => r matches Ok(AssetUrlRewrite::Rewritten(t)) && t@ == s,
                    None => r == Err::<AssetUrlRewrite, AssetUrlError>(AssetUrlError::BaseUrlParseFailed),
                },
                _ => match r {
                    Ok(AssetUrlRewrite::Import(i)) => if path.take(h).len() == 0 {
                        (i matches AssetImport::Empty) && final(imports)@ == old(imports)@
                    } else {
                        import_outcome(old(imports)@, final(imports)@, path.take(h), Ok(i), fragment)
                    },
                    Ok(AssetUrlRewrite::Rewritten(_)) => false,
                    Err(e) => path.take(h).len() > 0 && import_outcome(old(imports)@, final(imports)@, path.take(h), Err(e), fragment),
                },
            }
        }),
{
    let chars = chars_of(value);
    if let Some(b) = base {
        if chars.len() > 0 && chars[0] == '.' {
            return match rewrite_base_url(value, b) {
                Some(s) => Ok(AssetUrlRewrite::Rewritten(s)),
                None => Err(AssetUrlError::BaseUrlParseFailed),
            };
        }
    }
    match asset_url_import(value, imports) {
        Ok(i) => Ok(AssetUrlRewrite::Import(i)),
        Err(e) => Err(e),
    }
}

} // verus!
