//! The record parsers: turning the raw lines of one named block into typed
//! records, and dispatching a block buffer by its block name.

use vstd::prelude::*;

use crate::attr::{extract_extras, extract_index, extract_version, extras_capture, index_capture,
    version_capture};
use crate::errors::ParseError;
use crate::package::{Package, PackageView};
use crate::pipenv::{init_pipenv_view, set_prereleases_spec, set_py_version_spec, Pipenv,
    PipenvRequirements, PipenvView};
use crate::pipenv_content::{ContentView, PipenvContent};
use crate::source::{Source, SourceView};
use crate::strutil::{find_char, find_char_spec, lemma_find_char_props, split_char,
    split_char_spec, starts_with, starts_with_spec, str_eq, trim, trim_char_end_spec,
    trim_char_spec, trim_char_start_spec, trim_end_matching, trim_matching, trim_start_matching,
    trim_spec};

verus! {

/// Whether a line is blank but for whitespace.
pub open spec fn line_blank(line: Seq<char>) -> bool {
    trim_spec(line).len() == 0
}

/// The `key = value` reading of a line: the text left of the first `=`,
/// trimmed, and the text right of it, trimmed of whitespace and then of
/// surrounding double quotes. A line without `=` has no such reading.
pub open spec fn kv_of_line(line: Seq<char>) -> Option<(Seq<char>, Seq<char>)> {
    match find_char_spec(line, '=') {
        None => None,
        Some(i) => Some(
            (
                trim_spec(line.subrange(0, i)),
                trim_char_spec(trim_spec(line.subrange(i + 1, line.len() as int)), '"'),
            ),
        ),
    }
}

/// Whether every non-blank line of the block has a `key = value` shape.
pub open spec fn block_well_formed(lines: Seq<Seq<char>>) -> bool {
    forall|i: int|
        0 <= i < lines.len() ==> (line_blank(lines[i]) || find_char_spec(lines[i], '=') is Some)
}

/// The key/value pairs of a block's non-blank lines, in line order. A later
/// binding of a key shadows an earlier one.
pub open spec fn map_of_block(lines: Seq<Seq<char>>) -> Seq<(Seq<char>, Seq<char>)>
    decreases lines.len(),
{
    if lines.len() == 0 {
        Seq::empty()
    } else {
        map_of_block(lines.drop_last()) + (if line_blank(lines.last()) {
            Seq::<(Seq<char>, Seq<char>)>::empty()
        } else {
            match kv_of_line(lines.last()) {
                Some(kv) => seq![kv],
                None => Seq::<(Seq<char>, Seq<char>)>::empty(),
            }
        })
    }
}

/// The value bound to `k`, taking the latest binding when `k` was bound more
/// than once.
pub open spec fn map_get(m: Seq<(Seq<char>, Seq<char>)>, k: Seq<char>) -> Option<Seq<char>>
    decreases m.len(),
{
    if m.len() == 0 {
        None
    } else if m.last().0 == k {
        Some(m.last().1)
    } else {
        map_get(m.drop_last(), k)
    }
}

/// Whether an executable parse result agrees with its specified one, record
/// views compared.
pub open spec fn res_view_matches<T: View>(r: Result<T, ParseError>, s: Result<
    T::V,
    ParseError,
>) -> bool {
    match (r, s) {
        (Ok(a), Ok(b)) => a@ == b,
        (Err(a), Err(b)) => a == b,
        _ => false,
    }
}

/// Turns a block's lines into its key/value pairs, skipping blank lines.
/// A non-blank line without `=` is malformed and aborts the block.
pub fn parse_to_map(block: &Vec<String>) -> (r: Result<Vec<(String, String)>, ParseError>)
    ensures
        block_well_formed(block.deep_view()) ==> r is Ok,
        r is Ok ==> block_well_formed(block.deep_view()) && r->Ok_0.deep_view() == map_of_block(
            block.deep_view(),
        ),
        r is Err ==> r == Err::<Vec<(String, String)>, ParseError>(ParseError::MalformedLine),
{
    let ghost all = block.deep_view();
    let mut m: Vec<(String, String)> = Vec::new();
    let mut i: usize = 0;
    proof {
        assert(m.deep_view() =~= map_of_block(all.take(0)));
    }
    while i < block.len()
        invariant
            0 <= i <= block.len(),
            all == block.deep_view(),
            all.len() == block.len(),
            forall|j: int|
                0 <= j < i ==> (line_blank(all[j]) || find_char_spec(all[j], '=') is Some),
            m.deep_view() == map_of_block(all.take(i as int)),
        decreases block.len() - i,
    {
        let line: &String = &block[i];
        let t = trim(line.as_str());
        let ghost prev = m.deep_view();
        if t.unicode_len() == 0 {
            proof {
                assert(line_blank(all[i as int]));
                assert(all.take(i + 1).drop_last() =~= all.take(i as int));
                assert(all.take(i + 1).last() == all[i as int]);
                assert(m.deep_view() =~= map_of_block(all.take(i + 1)));
            }
        } else {
            let n = line.as_str().unicode_len();
            match find_char(line.as_str(), '=') {
                None => {
                    proof {
                        assert(!line_blank(all[i as int]) && find_char_spec(all[i as int], '=')
                            is None);
                        assert(!block_well_formed(all));
                    }
                    return Err(ParseError::MalformedLine);
                },
                Some(p) => {
                    proof {
                        lemma_find_char_props(line@, '=');
                    }
                    let left = line.as_str().substring_char(0, p);
                    let right = line.as_str().substring_char(p + 1, n);
                    let key = trim(left).to_owned();
                    let value = trim_matching(trim(right), '"').to_owned();
                    m.push((key, value));
                    proof {
                        assert(kv_of_line(all[i as int]) == Some(
                            (
                                trim_spec(all[i as int].subrange(0, p as int)),
                                trim_char_spec(
                                    trim_spec(
                                        all[i as int].subrange(
                                            p + 1,
                                            all[i as int].len() as int,
                                        ),
                                    ),
                                    '"',
                                ),
                            ),
                        ));
                        assert(all.take(i + 1).drop_last() =~= all.take(i as int));
                        assert(all.take(i + 1).last() == all[i as int]);
                        assert(m.deep_view() =~= prev + seq![kv_of_line(all[i as int])->0]);
                        assert(m.deep_view() =~= map_of_block(all.take(i + 1)));
                    }
                },
            }
        }
        i += 1;
    }
    proof {
        assert(all.take(all.len() as int) =~= all);
    }
    Ok(m)
}

/// Looks a key up among a block's pairs; the latest binding wins.
pub fn map_get_exec(m: &Vec<(String, String)>, k: &str) -> (r: Option<String>)
    ensures
        r.deep_view() == map_get(m.deep_view(), k@),
{
    let ghost all = m.deep_view();
    let mut i: usize = m.len();
    proof {
        assert(all.take(all.len() as int) =~= all);
    }
    while i > 0
        invariant
            0 <= i <= m.len(),
            all == m.deep_view(),
            all.len() == m.len(),
            map_get(all, k@) == map_get(all.take(i as int), k@),
        decreases i,
    {
        i -= 1;
        let pair: &(String, String) = &m[i];
        proof {
            assert(all.take(i + 1).last() == all[i as int]);
            assert(all.take(i + 1).drop_last() =~= all.take(i as int));
        }
        if str_eq(pair.0.as_str(), k) {
            return Some(pair.1.clone());
        }
    }
    None
}

/// The source record of a source block: its `name` and `url` values, quotes
/// trimmed once more, and the optional `verify_ssl` token. A block missing
/// `name` or `url` fails.
pub open spec fn source_block_spec(lines: Seq<Seq<char>>) -> Result<SourceView, ParseError> {
    if !block_well_formed(lines) {
        Err(ParseError::MalformedLine)
    } else {
        let m = map_of_block(lines);
        match (map_get(m, "name"@), map_get(m, "url"@)) {
            (Some(n), Some(u)) => Ok(
                SourceView {
                    name: trim_char_spec(n, '"'),
                    url: trim_char_spec(u, '"'),
                    verify_ssl: map_get(m, "verify_ssl"@),
                },
            ),
            _ => Err(ParseError::MissingField),
        }
    }
}

/// Parses one source block into its record.
pub fn parse_source_block(source_block: &Vec<String>) -> (r: Result<Source, ParseError>)
    ensures
        res_view_matches(r, source_block_spec(source_block.deep_view())),
{
    match parse_to_map(source_block) {
        Err(e) => Err(e),
        Ok(m) => {
            let name = map_get_exec(&m, "name");
            let url = map_get_exec(&m, "url");
            match (name, url) {
                (Some(n), Some(u)) => Ok(
                    Source {
                        name: trim_matching(n.as_str(), '"').to_owned(),
                        url: trim_matching(u.as_str(), '"').to_owned(),
                        verify_ssl: map_get_exec(&m, "verify_ssl"),
                    },
                ),
                _ => Err(ParseError::MissingField),
            }
        },
    }
}

/// The settings record of a settings block: its `python_version` value and
/// the optional `allow_prereleases` token. A block missing `python_version`
/// fails.
pub open spec fn pipenv_block_spec(lines: Seq<Seq<char>>) -> Result<PipenvView, ParseError> {
    if !block_well_formed(lines) {
        Err(ParseError::MalformedLine)
    } else {
        let m = map_of_block(lines);
        match map_get(m, "python_version"@) {
            Some(v) => Ok(
                PipenvView { python_version: v, allow_prereleases: map_get(m, "allow_prereleases"@) },
            ),
            None => Err(ParseError::MissingField),
        }
    }
}

/// Parses one settings block into its record.
pub fn parse_pipenv_block(pipenv_block: &Vec<String>) -> (r: Result<Pipenv, ParseError>)
    ensures
        res_view_matches(r, pipenv_block_spec(pipenv_block.deep_view())),
{
    match parse_to_map(pipenv_block) {
        Err(e) => Err(e),
        Ok(m) => {
            match map_get_exec(&m, "python_version") {
                Some(v) => Ok(
                    Pipenv {
                        python_version: v,
                        allow_prereleases: map_get_exec(&m, "allow_prereleases"),
                    },
                ),
                None => Err(ParseError::MissingField),
            }
        },
    }
}

/// The pieces of a captured extras list: split at commas, each piece trimmed
/// of surrounding double quotes.
pub open spec fn unquoted_pieces(e: Seq<char>) -> Seq<Seq<char>> {
    split_char_spec(e, ',').map_values(|p: Seq<char>| trim_char_spec(p, '"'))
}

/// The package record of one package line.
///
/// A line without `=` is a bare name (the whole line, trimmed) with empty
/// version. Otherwise the left of the first `=` is the name and the right is
/// the version token; a token that opens a brace is an inline attribute map,
/// out of which the version constraint, index reference and extras list are
/// extracted by their patterns — with the whole original token as the
/// version when no version pattern occurs. A plain token is the version,
/// quotes trimmed.
pub open spec fn parse_package_spec(line: Seq<char>, is_dev: bool) -> PackageView {
    match find_char_spec(line, '=') {
        None => PackageView {
            name: trim_spec(line),
            version: Seq::empty(),
            index: None,
            extras: None,
            is_dev,
        },
        Some(i) => {
            let left = trim_spec(line.subrange(0, i));
            let right = trim_spec(line.subrange(i + 1, line.len() as int));
            if left.len() == 0 {
                PackageView {
                    name: right,
                    version: Seq::empty(),
                    index: None,
                    extras: None,
                    is_dev,
                }
            } else if right.len() > 0 && right[0] == '{' {
                let inner = trim_spec(trim_char_end_spec(trim_char_start_spec(right, '{'), '}'));
                PackageView {
                    name: left,
                    version: match version_capture(inner) {
                        Some(v) => v,
                        None => right,
                    },
                    index: index_capture(inner),
                    extras: match extras_capture(inner) {
                        Some(e) => Some(unquoted_pieces(e)),
                        None => None,
                    },
                    is_dev,
                }
            } else {
                PackageView {
                    name: left,
                    version: trim_char_spec(right, '"'),
                    index: None,
                    extras: None,
                    is_dev,
                }
            }
        },
    }
}

/// Parses one package line into its record, carrying the dev flag of the
/// enclosing block.
pub fn parse_package(package_line: &str, is_dev: bool) -> (p: Package)
    ensures
        p@ == parse_package_spec(package_line@, is_dev),
{
    let n = package_line.unicode_len();
    match find_char(package_line, '=') {
        None => Package {
            name: trim(package_line).to_owned(),
            version: String::new(),
            index: None,
            extras: None,
            is_dev,
        },
        Some(i) => {
            proof {
                lemma_find_char_props(package_line@, '=');
            }
            let left = trim(package_line.substring_char(0, i));
            let right = trim(package_line.substring_char(i + 1, n));
            if left.unicode_len() == 0 {
                Package {
                    name: right.to_owned(),
                    version: String::new(),
                    index: None,
                    extras: None,
                    is_dev,
                }
            } else if right.unicode_len() > 0 && right.get_char(0) == '{' {
                let inner = trim(trim_end_matching(trim_start_matching(right, '{'), '}'));
                let version: String = match extract_version(inner) {
                    Some(v) => v,
                    None => right.to_owned(),
                };
                let index = extract_index(inner);
                let extras: Option<Vec<String>> = match extract_extras(inner) {
                    Some(raw) => Some(unquote_pieces(raw.as_str())),
                    None => None,
                };
                Package { name: left.to_owned(), version, index, extras, is_dev }
            } else {
                Package {
                    name: left.to_owned(),
                    version: trim_matching(right, '"').to_owned(),
                    index: None,
                    extras: None,
                    is_dev,
                }
            }
        },
    }
}

/// Splits a captured extras list at commas and trims each piece's quotes.
fn unquote_pieces(raw: &str) -> (r: Vec<String>)
    ensures
        r.deep_view() == unquoted_pieces(raw@),
{
    let pieces = split_char(raw, ',');
    let ghost ps = pieces.deep_view();
    let mut out: Vec<String> = Vec::new();
    let mut i: usize = 0;
    while i < pieces.len()
        invariant
            0 <= i <= pieces.len(),
            ps == pieces.deep_view(),
            ps.len() == pieces.len(),
            out.deep_view().len() == i,
            forall|j: int| 0 <= j < i ==> out.deep_view()[j] == trim_char_spec(ps[j], '"'),
        decreases pieces.len() - i,
    {
        let ghost prev = out.deep_view();
        out.push(trim_matching(pieces[i].as_str(), '"').to_owned());
        proof {
            assert(out.deep_view() =~= prev + seq![trim_char_spec(ps[i as int], '"')]);
        }
        i += 1;
    }
    proof {
        assert(out.deep_view() =~= unquoted_pieces(raw@));
    }
    out
}

/// Whether a packages-block line produces nothing: a comment line (leading
/// `#`) or a blank line.
pub open spec fn skip_line(line: Seq<char>) -> bool {
    (line.len() > 0 && line[0] == '#') || line_blank(line)
}

/// The package records of a packages block, in line order.
pub open spec fn packages_block_spec(lines: Seq<Seq<char>>, is_dev: bool) -> Seq<PackageView>
    decreases lines.len(),
{
    if lines.len() == 0 {
        Seq::empty()
    } else {
        packages_block_spec(lines.drop_last(), is_dev) + (if skip_line(lines.last()) {
            Seq::<PackageView>::empty()
        } else {
            seq![parse_package_spec(lines.last(), is_dev)]
        })
    }
}

/// Parses a packages block, tagging every package with the block's dev flag.
pub fn parse_packages_block(packages_block: &Vec<String>, is_dev: bool) -> (r: Vec<Package>)
    ensures
        r.deep_view() == packages_block_spec(packages_block.deep_view(), is_dev),
{
    let ghost all = packages_block.deep_view();
    let mut packages: Vec<Package> = Vec::new();
    let mut i: usize = 0;
    proof {
        assert(packages.deep_view() =~= packages_block_spec(all.take(0), is_dev));
    }
    while i < packages_block.len()
        invariant
            0 <= i <= packages_block.len(),
            all == packages_block.deep_view(),
            all.len() == packages_block.len(),
            packages.deep_view() == packages_block_spec(all.take(i as int), is_dev),
        decreases packages_block.len() - i,
    {
        let line: &String = &packages_block[i];
        let ghost prev = packages.deep_view();
        let is_comment = line.as_str().unicode_len() > 0 && line.as_str().get_char(0) == '#';
        let is_blank = trim(line.as_str()).unicode_len() == 0;
        if !is_comment && !is_blank {
            let package = parse_package(line.as_str(), is_dev);
            packages.push(package);
            proof {
                assert(packages.deep_view() =~= prev + seq![
                    parse_package_spec(all[i as int], is_dev),
                ]);
            }
        }
        proof {
            assert(all.take(i + 1).drop_last() =~= all.take(i as int));
            assert(all.take(i + 1).last() == all[i as int]);
            assert(packages.deep_view() =~= packages_block_spec(all.take(i + 1), is_dev));
        }
        i += 1;
    }
    proof {
        assert(all.take(all.len() as int) =~= all);
    }
    packages
}

/// The outcome of dispatching one block buffer by its block name.
pub enum BufferResultEnum<A, B, C> {
    Source(A),
    Pipenv(B),
    Packages(C),
    Unknown,
}

/// What dispatching a buffer yields: a source record for a `source` block, a
/// settings record for a `pipenv` block, packages for a `packages` or
/// `dev-packages` block (dev-flagged for the latter), and nothing for an
/// unrecognized block name.
pub open spec fn process_buffer_spec(name: Seq<char>, lines: Seq<Seq<char>>) -> Result<
    BufferResultEnum<SourceView, PipenvView, Seq<PackageView>>,
    ParseError,
> {
    if name == "source"@ {
        match source_block_spec(lines) {
            Ok(s) => Ok(BufferResultEnum::Source(s)),
            Err(e) => Err(e),
        }
    } else if name == "pipenv"@ {
        match pipenv_block_spec(lines) {
            Ok(p) => Ok(BufferResultEnum::Pipenv(p)),
            Err(e) => Err(e),
        }
    } else if name == "packages"@ {
        Ok(BufferResultEnum::Packages(packages_block_spec(lines, false)))
    } else if name == "dev-packages"@ {
        Ok(BufferResultEnum::Packages(packages_block_spec(lines, true)))
    } else {
        Ok(BufferResultEnum::Unknown)
    }
}

/// Whether an executable dispatch result agrees with its specified one,
/// record views compared.
pub open spec fn buffer_result_matches(
    r: Result<BufferResultEnum<Source, Pipenv, Vec<Package>>, ParseError>,
    s: Result<BufferResultEnum<SourceView, PipenvView, Seq<PackageView>>, ParseError>,
) -> bool {
    match (r, s) {
        (Ok(BufferResultEnum::Source(a)), Ok(BufferResultEnum::Source(b))) => a@ == b,
        (Ok(BufferResultEnum::Pipenv(a)), Ok(BufferResultEnum::Pipenv(b))) => a@ == b,
        (Ok(BufferResultEnum::Packages(a)), Ok(BufferResultEnum::Packages(b))) => a.deep_view()
            == b,
        (Ok(BufferResultEnum::Unknown), Ok(BufferResultEnum::Unknown)) => true,
        (Err(a), Err(b)) => a == b,
        _ => false,
    }
}

/// Dispatches a completed block buffer to the parser its block name selects.
/// An unrecognized block name yields nothing and is not fatal.
pub fn process_previous_buffer(block_name: &str, line_buffer: &Vec<String>) -> (r: Result<
    BufferResultEnum<Source, Pipenv, Vec<Package>>,
    ParseError,
>)
    ensures
        buffer_result_matches(r, process_buffer_spec(block_name@, line_buffer.deep_view())),
{
    if str_eq(block_name, "source") {
        match parse_source_block(line_buffer) {
            Ok(s) => Ok(BufferResultEnum::Source(s)),
            Err(e) => Err(e),
        }
    } else if str_eq(block_name, "pipenv") {
        match parse_pipenv_block(line_buffer) {
            Ok(p) => Ok(BufferResultEnum::Pipenv(p)),
            Err(e) => Err(e),
        }
    } else if str_eq(block_name, "packages") {
        Ok(BufferResultEnum::Packages(parse_packages_block(line_buffer, false)))
    } else if str_eq(block_name, "dev-packages") {
        Ok(BufferResultEnum::Packages(parse_packages_block(line_buffer, true)))
    } else {
        Ok(BufferResultEnum::Unknown)
    }
}

/// The segmenter's state after some prefix of the input lines: the current
/// block name, the buffered lines of that block, and the records gathered so
/// far.
pub ghost struct SegView {
    pub block: Seq<char>,
    pub buf: Seq<Seq<char>>,
    pub sources: Seq<SourceView>,
    pub packages: Seq<PackageView>,
    pub pipenv: PipenvView,
}

/// The segmenter's state before any line: the sentinel `empty` block, an
/// empty buffer, and no records.
pub open spec fn seg_init() -> SegView {
    SegView {
        block: "empty"@,
        buf: Seq::empty(),
        sources: Seq::empty(),
        packages: Seq::empty(),
        pipenv: init_pipenv_view(),
    }
}

/// Merges a dispatched buffer's outcome into the gathered records: a source
/// is appended, packages are appended, anything else is ignored.
pub open spec fn seg_merge(st: SegView, block: Seq<char>, r: BufferResultEnum<
    SourceView,
    PipenvView,
    Seq<PackageView>,
>) -> SegView {
    match r {
        BufferResultEnum::Source(s) => SegView {
            block,
            buf: Seq::empty(),
            sources: st.sources.push(s),
            packages: st.packages,
            pipenv: st.pipenv,
        },
        BufferResultEnum::Packages(ps) => SegView {
            block,
            buf: Seq::empty(),
            sources: st.sources,
            packages: st.packages + ps,
            pipenv: st.pipenv,
        },
        _ => SegView {
            block,
            buf: Seq::empty(),
            sources: st.sources,
            packages: st.packages,
            pipenv: st.pipenv,
        },
    }
}

/// One step of the segmenter. Interpreter-settings lines are recognized by
/// prefix anywhere and go to the settings record. A header line (first
/// character `[`, last `]`) dispatches a non-empty buffer to the block
/// parser of the block just ended and starts the block the header names,
/// its name the header's bracket-stripped content. Any other line is
/// buffered verbatim.
pub open spec fn seg_step(st: SegView, line: Seq<char>) -> Result<SegView, ParseError> {
    if starts_with_spec(line, "python_version"@) {
        match set_py_version_spec(st.pipenv, line) {
            Ok(p) => Ok(
                SegView {
                    block: st.block,
                    buf: st.buf,
                    sources: st.sources,
                    packages: st.packages,
                    pipenv: p,
                },
            ),
            Err(e) => Err(e),
        }
    } else if starts_with_spec(line, "allow_prereleases"@) {
        match set_prereleases_spec(st.pipenv, line) {
            Ok(p) => Ok(
                SegView {
                    block: st.block,
                    buf: st.buf,
                    sources: st.sources,
                    packages: st.packages,
                    pipenv: p,
                },
            ),
            Err(e) => Err(e),
        }
    } else if line.len() > 0 && line[0] == '[' && line.last() == ']' {
        let new_name = trim_char_end_spec(trim_char_start_spec(line, '['), ']');
        if st.buf.len() > 0 {
            match process_buffer_spec(st.block, st.buf) {
                Ok(r) => Ok(seg_merge(st, new_name, r)),
                Err(e) => Err(e),
            }
        } else {
            Ok(
                SegView {
                    block: new_name,
                    buf: st.buf,
                    sources: st.sources,
                    packages: st.packages,
                    pipenv: st.pipenv,
                },
            )
        }
    } else {
        Ok(
            SegView {
                block: st.block,
                buf: st.buf.push(line),
                sources: st.sources,
                packages: st.packages,
                pipenv: st.pipenv,
            },
        )
    }
}

/// The segmenter's state after all lines, stepping from the initial state,
/// with the first fatal error cutting the fold short.
pub open spec fn seg_fold(lines: Seq<Seq<char>>) -> Result<SegView, ParseError>
    decreases lines.len(),
{
    if lines.len() == 0 {
        Ok(seg_init())
    } else {
        match seg_fold(lines.drop_last()) {
            Ok(st) => seg_step(st, lines.last()),
            Err(e) => Err(e),
        }
    }
}

/// A fatal error met on a prefix of the lines is the whole fold's outcome.
proof fn lemma_seg_fold_err(lines: Seq<Seq<char>>, i: int)
    requires
        0 <= i <= lines.len(),
        seg_fold(lines.take(i)) is Err,
    ensures
        seg_fold(lines) == seg_fold(lines.take(i)),
    decreases lines.len() - i,
{
    if i < lines.len() {
        assert(lines.take(i + 1).drop_last() =~= lines.take(i));
        assert(seg_fold(lines.take(i + 1)) == seg_fold(lines.take(i)));
        lemma_seg_fold_err(lines, i + 1);
    } else {
        assert(lines.take(i) =~= lines);
    }
}

/// The document parsed out of the input lines: the segmenter's fold over
/// all lines, with the final buffer dispatched at end of input — a document
/// whose last block has no trailing header is not dropped.
pub open spec fn parse_lines_spec(lines: Seq<Seq<char>>) -> Result<ContentView, ParseError> {
    match seg_fold(lines) {
        Err(e) => Err(e),
        Ok(st) => match process_buffer_spec(st.block, st.buf) {
            Err(e) => Err(e),
            Ok(r) => {
                let m = seg_merge(st, st.block, r);
                Ok(ContentView { sources: m.sources, packages: m.packages, pipenv: m.pipenv })
            },
        },
    }
}

/// Segments the input lines into blocks, parses each block, and gathers the
/// records into a document. Any fatal parse error aborts the conversion.
pub fn parse_lines(lines: &Vec<String>) -> (r: Result<PipenvContent, ParseError>)
    ensures
        res_view_matches(r, parse_lines_spec(lines.deep_view())),
{
    let ghost all = lines.deep_view();
    let mut line_buffer: Vec<String> = Vec::new();
    let mut block_name: String = "empty".to_owned();
    let mut sources: Vec<Source> = Vec::new();
    let mut packages: Vec<Package> = Vec::new();
    let mut pipenv: Pipenv = PipenvRequirements::new();
    proof {
        assert(all.take(0) =~= Seq::<Seq<char>>::empty());
        assert(line_buffer.deep_view() =~= Seq::<Seq<char>>::empty());
        assert(sources.deep_view() =~= Seq::<SourceView>::empty());
        assert(packages.deep_view() =~= Seq::<PackageView>::empty());
    }
    let mut i: usize = 0;
    while i < lines.len()
        invariant
            0 <= i <= lines.len(),
            all == lines.deep_view(),
            all.len() == lines.len(),
            seg_fold(all.take(i as int)) == Ok::<SegView, ParseError>(
                SegView {
                    block: block_name@,
                    buf: line_buffer.deep_view(),
                    sources: sources.deep_view(),
                    packages: packages.deep_view(),
                    pipenv: pipenv@,
                },
            ),
        decreases lines.len() - i,
    {
        let ghost st = SegView {
            block: block_name@,
            buf: line_buffer.deep_view(),
            sources: sources.deep_view(),
            packages: packages.deep_view(),
            pipenv: pipenv@,
        };
        proof {
            assert(all.take(i + 1).drop_last() =~= all.take(i as int));
            assert(all.take(i + 1).last() == all[i as int]);
        }
        let line: &String = &lines[i];
        if starts_with(line.as_str(), "python_version") {
            match pipenv.set_py_version(line.as_str()) {
                Ok(_) => {
                    proof {
                        assert(seg_step(st, all[i as int]) == Ok::<SegView, ParseError>(
                            SegView {
                                block: block_name@,
                                buf: line_buffer.deep_view(),
                                sources: sources.deep_view(),
                                packages: packages.deep_view(),
                                pipenv: pipenv@,
                            },
                        ));
                    }
                },
                Err(e) => {
                    proof {
                        lemma_seg_fold_err(all, i + 1);
                    }
                    return Err(e);
                },
            }
        } else if starts_with(line.as_str(), "allow_prereleases") {
            match pipenv.set_prereleases_status(line.as_str()) {
                Ok(_) => {
                    proof {
                        assert(seg_step(st, all[i as int]) == Ok::<SegView, ParseError>(
                            SegView {
                                block: block_name@,
                                buf: line_buffer.deep_view(),
                                sources: sources.deep_view(),
                                packages: packages.deep_view(),
                                pipenv: pipenv@,
                            },
                        ));
                    }
                },
                Err(e) => {
                    proof {
                        lemma_seg_fold_err(all, i + 1);
                    }
                    return Err(e);
                },
            }
        } else {
            let n = line.as_str().unicode_len();
            let is_header = n > 0 && line.as_str().get_char(0) == '[' && line.as_str().get_char(
                n - 1,
            ) == ']';
            if is_header {
                let new_block_name = trim_end_matching(
                    trim_start_matching(line.as_str(), '['),
                    ']',
                ).to_owned();
                if line_buffer.len() > 0 {
                    match process_previous_buffer(block_name.as_str(), &line_buffer) {
                        Ok(BufferResultEnum::Source(processed_source)) => {
                            let ghost prev = sources.deep_view();
                            sources.push(processed_source);
                            proof {
                                assert(sources.deep_view() =~= st.sources.push(
                                    process_buffer_spec(st.block, st.buf)->Ok_0->Source_0,
                                ));
                            }
                        },
                        Ok(BufferResultEnum::Packages(mut processed_packages)) => {
                            let ghost prev = packages.deep_view();
                            let ghost ps = processed_packages.deep_view();
                            packages.append(&mut processed_packages);
                            proof {
                                assert(packages.deep_view() =~= prev + ps);
                            }
                        },
                        Ok(_) => {},
                        Err(e) => {
                            proof {
                                lemma_seg_fold_err(all, i + 1);
                            }
                            return Err(e);
                        },
                    }
                } else {
                    proof {
                        assert(st.buf =~= Seq::<Seq<char>>::empty());
                    }
                }
                block_name = new_block_name;
                line_buffer = Vec::new();
                proof {
                    assert(line_buffer.deep_view() =~= Seq::<Seq<char>>::empty());
                    assert(seg_step(st, all[i as int]) == Ok::<SegView, ParseError>(
                        SegView {
                            block: block_name@,
                            buf: line_buffer.deep_view(),
                            sources: sources.deep_view(),
                            packages: packages.deep_view(),
                            pipenv: pipenv@,
                        },
                    ));
                }
            } else {
                let ghost prev = line_buffer.deep_view();
                line_buffer.push(line.clone());
                proof {
                    assert(line_buffer.deep_view() =~= prev.push(all[i as int]));
                    assert(seg_step(st, all[i as int]) == Ok::<SegView, ParseError>(
                        SegView {
                            block: block_name@,
                            buf: line_buffer.deep_view(),
                            sources: sources.deep_view(),
                            packages: packages.deep_view(),
                            pipenv: pipenv@,
                        },
                    ));
                }
            }
        }
        i += 1;
    }
    proof {
        assert(all.take(all.len() as int) =~= all);
    }
    let ghost st = SegView {
        block: block_name@,
        buf: line_buffer.deep_view(),
        sources: sources.deep_view(),
        packages: packages.deep_view(),
        pipenv: pipenv@,
    };
    match process_previous_buffer(block_name.as_str(), &line_buffer) {
        Ok(BufferResultEnum::Source(processed_source)) => {
            let ghost prev = sources.deep_view();
            sources.push(processed_source);
            proof {
                assert(sources.deep_view() =~= st.sources.push(
                    process_buffer_spec(st.block, st.buf)->Ok_0->Source_0,
                ));
            }
        },
        Ok(BufferResultEnum::Packages(mut processed_packages)) => {
            let ghost prev = packages.deep_view();
            let ghost ps = processed_packages.deep_view();
            packages.append(&mut processed_packages);
            proof {
                assert(packages.deep_view() =~= prev + ps);
            }
        },
        Ok(_) => {},
        Err(e) => {
            return Err(e);
        },
    }
    proof {
        let m = seg_merge(st, st.block, process_buffer_spec(st.block, st.buf)->Ok_0);
        assert(sources.deep_view() == m.sources);
        assert(packages.deep_view() == m.packages);
        assert(pipenv@ == m.pipenv);
    }
    Ok(PipenvContent { sources, packages, pipenv })
}

} // verus!
