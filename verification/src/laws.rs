//! The library's laws: properties that relate the parsers and the
//! serializer, proved once and for all inputs they speak of.

use vstd::prelude::*;

use crate::attr::{attr_at, attr_search, class_of, class_word_char, extras_capture, lemma_run_end,
    AttrClass};
use crate::errors::ParseError;
use crate::package::{as_uv_spec, joined_extras, PackageView};
use crate::pipenv_content::{dev_seq, indexed_seq, nondev_seq};
use crate::processors::{block_well_formed, kv_of_line, line_blank, map_get, map_of_block,
    parse_package_spec, source_block_spec, unquoted_pieces};
use crate::source::{source_as_uv_spec, SourceView};
use crate::strutil::{find_char_spec, is_space, lemma_find_char_at, lemma_find_char_none,
    split_char_spec, trim_char_end_spec, trim_char_spec, trim_char_start_spec, trim_end_spec,
    trim_spec, trim_start_spec};

verus! {

/// The canonical `key = "value"` line: how the line splits at its first `=`
/// and how its two sides trim. The key must hold no `=`, quote or
/// whitespace; the value no quote.
proof fn lemma_canonical_kv_line(key: Seq<char>, value: Seq<char>)
    requires
        key.len() > 0,
        forall|i: int| 0 <= i < key.len() ==> key[i] != '=' && !is_space(key[i]),
        forall|i: int| 0 <= i < value.len() ==> value[i] != '"',
    ensures
        ({
            let line = key + seq![' ', '=', ' ', '"'] + value + seq!['"'];
            let sep = key.len() as int + 1;
            &&& find_char_spec(line, '=') == Some(sep)
            &&& trim_spec(line) == line
            &&& trim_spec(line.subrange(0, sep)) == key
            &&& trim_spec(line.subrange(sep + 1, line.len() as int)) == seq!['"'] + value
                + seq!['"']
            &&& trim_char_spec(seq!['"'] + value + seq!['"'], '"') == value
        }),
{
    let line = key + seq![' ', '=', ' ', '"'] + value + seq!['"'];
    let sep = key.len() as int + 1;
    assert(line[sep] == '=');
    assert forall|j: int| 0 <= j < sep implies line[j] != '=' by {
        if j < key.len() {
            assert(line[j] == key[j]);
        } else {
            assert(line[j] == ' ');
        }
    }
    lemma_find_char_at(line, '=', sep);

    // the whole line is already trimmed: it starts with a key character and
    // ends with a quote
    assert(line[0] == key[0] && !is_space(line[0]));
    assert(trim_start_spec(line) == line);
    assert(line.last() == '"' && !is_space(line.last()));
    assert(trim_end_spec(line) == line);

    // left of the separator: the key and one space
    assert(line.subrange(0, sep) =~= key + seq![' ']);
    let left = key + seq![' '];
    assert(left[0] == key[0] && !is_space(left[0]));
    assert(trim_start_spec(left) == left);
    assert(left.last() == ' ');
    assert(left.drop_last() =~= key);
    assert(trim_end_spec(left) == trim_end_spec(key));
    assert(key.last() != ' ' && !is_space(key.last()));
    assert(trim_end_spec(key) == key);

    // right of the separator: a space, then the quoted value
    let right0 = seq![' ', '"'] + value + seq!['"'];
    let right1 = seq!['"'] + value + seq!['"'];
    assert(line.subrange(sep + 1, line.len() as int) =~= right0);
    assert(right0[0] == ' ' && is_space(right0[0]));
    assert(right0.drop_first() =~= right1);
    assert(trim_start_spec(right0) == trim_start_spec(right1));
    assert(right1[0] == '"' && !is_space(right1[0]));
    assert(trim_start_spec(right1) == right1);
    assert(right1.last() == '"' && !is_space(right1.last()));
    assert(trim_end_spec(right1) == right1);

    // trimming the quotes of the right side yields the value
    assert(right1.drop_first() =~= value + seq!['"']);
    assert(trim_char_start_spec(right1, '"') == trim_char_start_spec(value + seq!['"'], '"'));
    if value.len() > 0 {
        assert((value + seq!['"'])[0] == value[0] && value[0] != '"');
        assert(trim_char_start_spec(value + seq!['"'], '"') == value + seq!['"']);
        assert((value + seq!['"']).last() == '"');
        assert((value + seq!['"']).drop_last() =~= value);
        assert(trim_char_end_spec(value + seq!['"'], '"') == trim_char_end_spec(value, '"'));
        assert(value.last() != '"');
        assert(trim_char_end_spec(value, '"') == value);
    } else {
        assert(value + seq!['"'] =~= seq!['"']);
        assert((seq!['"']).drop_first() =~= Seq::<char>::empty());
        assert(trim_char_start_spec(seq!['"'], '"') == trim_char_start_spec(
            Seq::<char>::empty(),
            '"',
        ));
        assert(trim_char_start_spec(Seq::<char>::empty(), '"') == Seq::<char>::empty());
        assert(trim_char_end_spec(Seq::<char>::empty(), '"') =~= value);
    }
}

/// A package line of the form `name = "version"` parses into exactly that
/// name and version, with no index and no extras, and its rendered
/// dependency entry is the quoted name followed by the version — with the
/// version suffix omitted entirely when the version is the unconstrained
/// `*`.
pub proof fn lemma_package_line_round_trip(name: Seq<char>, version: Seq<char>, is_dev: bool)
    requires
        name.len() > 0,
        forall|i: int| 0 <= i < name.len() ==> name[i] != '=' && !is_space(name[i]),
        forall|i: int| 0 <= i < version.len() ==> version[i] != '"',
    ensures
        ({
            let line = name + seq![' ', '=', ' ', '"'] + version + seq!['"'];
            let p = parse_package_spec(line, is_dev);
            &&& p.name == name
            &&& p.version == version
            &&& p.index is None
            &&& p.extras is None
            &&& p.is_dev == is_dev
            &&& (version != "*"@ ==> as_uv_spec(p) == seq!['"'] + name + version + seq!['"'])
            &&& (version == "*"@ ==> as_uv_spec(p) == seq!['"'] + name + seq!['"'])
        }),
{
    lemma_canonical_kv_line(name, version);
    let line = name + seq![' ', '=', ' ', '"'] + version + seq!['"'];
    let sep = name.len() as int + 1;
    let right = trim_spec(line.subrange(sep + 1, line.len() as int));
    assert(right == seq!['"'] + version + seq!['"']);
    let p = parse_package_spec(line, is_dev);
    assert(right[0] == '"');
    assert(p.name == name && p.version == version);
    reveal_strlit("\"");
    assert("\""@ =~= seq!['"']);
    if version == "*"@ {
        assert(as_uv_spec(p) =~= seq!['"'] + name + seq!['"']);
    } else {
        assert(as_uv_spec(p) =~= seq!['"'] + name + version + seq!['"']);
    }
}

/// A package line lacking `=` entirely is a bare name: the whole line,
/// trimmed, with empty version and neither extras nor index.
pub proof fn lemma_bare_package_line(line: Seq<char>, is_dev: bool)
    requires
        forall|i: int| 0 <= i < line.len() ==> line[i] != '=',
    ensures
        parse_package_spec(line, is_dev) == (PackageView {
            name: trim_spec(line),
            version: Seq::<char>::empty(),
            index: None,
            extras: None,
            is_dev,
        }),
{
    lemma_find_char_none(line, '=');
}

/// A captured extras list `a,b` parses into the pieces `a` then `b`: the
/// original order is kept and nothing is added.
pub proof fn lemma_extras_list_two(a: Seq<char>, b: Seq<char>)
    requires
        forall|i: int| 0 <= i < a.len() ==> a[i] != ',' && a[i] != '"',
        forall|i: int| 0 <= i < b.len() ==> b[i] != ',' && b[i] != '"',
    ensures
        unquoted_pieces(a + seq![','] + b) == seq![a, b],
        joined_extras(seq![a, b]) == a + ","@ + b,
{
    let s = a + seq![','] + b;
    assert(s[a.len() as int] == ',');
    assert forall|j: int| 0 <= j < a.len() implies s[j] != ',' by {
        assert(s[j] == a[j]);
    }
    lemma_find_char_at(s, ',', a.len() as int);
    assert(s.subrange(0, a.len() as int) =~= a);
    assert(s.subrange(a.len() as int + 1, s.len() as int) =~= b);
    lemma_find_char_none(b, ',');
    assert(split_char_spec(b, ',') == seq![b]);
    assert(split_char_spec(s, ',') == seq![a] + seq![b]);
    assert(split_char_spec(s, ',') =~= seq![a, b]);
    // neither piece holds a quote, so trimming quotes changes neither
    if a.len() > 0 {
        assert(a[0] != '"');
        assert(trim_char_start_spec(a, '"') == a);
        assert(a.last() != '"');
        assert(trim_char_end_spec(a, '"') == a);
    }
    if b.len() > 0 {
        assert(trim_char_start_spec(b, '"') == b);
        assert(trim_char_end_spec(b, '"') == b);
    }
    assert(trim_char_spec(a, '"') == a);
    assert(trim_char_spec(b, '"') == b);
    assert(unquoted_pieces(s) =~= seq![a, b]);
    // joining the two pieces puts the comma back, without quotes
    reveal_strlit(",");
    assert((seq![a, b]).drop_last() =~= seq![a]);
    assert(joined_extras(seq![a]) == a);
    assert(seq![a, b].last() == b);
    assert(joined_extras(seq![a, b]) == joined_extras(seq![a]) + ","@ + b);
    assert(","@ =~= seq![',']);
}

/// An inline attribute map that opens with `extras=[a,b]` has exactly the
/// list `a,b` captured as its extras.
pub proof fn lemma_extras_capture_canonical(a: Seq<char>, b: Seq<char>)
    requires
        a.len() > 0,
        b.len() > 0,
        forall|i: int| 0 <= i < a.len() ==> class_word_char(#[trigger] a[i]),
        forall|i: int| 0 <= i < b.len() ==> class_word_char(#[trigger] b[i]),
    ensures
        extras_capture("extras"@ + seq!['=', '['] + a + seq![','] + b + seq![']']) == Some(
            a + seq![','] + b,
        ),
{
    reveal_strlit("extras");
    let key = "extras"@;
    assert(key.len() == 6);
    let s = key + seq!['=', '['] + a + seq![','] + b + seq![']'];
    let cl = class_of(AttrClass::ExtrasChars);
    let cs = 8int;
    let ce = 8 + a.len() as int + 1 + b.len() as int;
    assert(s.len() == ce + 1);
    assert(s.subrange(0, 6) =~= key);
    assert(s[6] == '=' && !is_space(s[6]));
    assert(s[7] == '[' && !is_space(s[7]));
    assert forall|t: int| cs <= t < ce implies cl(#[trigger] s[t]) by {
        if t < 8 + a.len() {
            assert(s[t] == a[t - 8]);
        } else if t == 8 + a.len() {
            assert(s[t] == ',');
        } else {
            assert(s[t] == b[t - (9 + a.len())]);
        }
    }
    assert(s[ce] == ']' && !cl(s[ce]));
    lemma_run_end(s, cl, cs, ce);
    assert(attr_at(s, key, '[', ']', cl, 0) == Some((cs, ce)));
    assert(attr_search(s, key, '[', ']', cl, 0) == Some((cs, ce)));
    assert(s.subrange(cs, ce) =~= a + seq![','] + b);
}

/// A package whose extras were parsed out of the captured list `a,b`
/// serializes them as the bracketed `[a,b]`: original order,
/// comma-separated, no quotes added around the bracket's content.
pub proof fn lemma_extras_round_trip(a: Seq<char>, b: Seq<char>, p: PackageView)
    requires
        forall|i: int| 0 <= i < a.len() ==> a[i] != ',' && a[i] != '"',
        forall|i: int| 0 <= i < b.len() ==> b[i] != ',' && b[i] != '"',
        p.extras == Some(unquoted_pieces(a + seq![','] + b)),
    ensures
        p.extras == Some(seq![a, b]),
        as_uv_spec(p) == "\""@ + p.name + ("["@ + (a + ","@ + b) + "]"@) + (if p.version == "*"@ {
            Seq::<char>::empty()
        } else {
            p.version
        }) + "\""@,
{
    lemma_extras_list_two(a, b);
}

/// The serialized index table depends on a source's name and url alone: two
/// sources differing only in their `verify_ssl` token render identically.
pub proof fn lemma_verify_ssl_inert(s1: SourceView, s2: SourceView)
    requires
        s1.name == s2.name,
        s1.url == s2.url,
    ensures
        source_as_uv_spec(s1) == source_as_uv_spec(s2),
{
}

/// Round-trip of a source block: its `name`, `url` and `verify_ssl` lines
/// populate a source whose name and url reappear verbatim in the emitted
/// index table, and whose `verify_ssl` token is recorded without changing
/// the output text.
pub proof fn lemma_source_block_round_trip(name: Seq<char>, url: Seq<char>, ssl: Seq<char>)
    requires
        name.len() > 0,
        url.len() > 0,
        forall|i: int| 0 <= i < name.len() ==> name[i] != '"',
        forall|i: int| 0 <= i < url.len() ==> url[i] != '"',
        forall|i: int| 0 <= i < ssl.len() ==> ssl[i] != '"',
    ensures
        ({
            let block = seq![
                "name"@ + seq![' ', '=', ' ', '"'] + name + seq!['"'],
                "url"@ + seq![' ', '=', ' ', '"'] + url + seq!['"'],
                "verify_ssl"@ + seq![' ', '=', ' ', '"'] + ssl + seq!['"'],
            ];
            let src = SourceView { name, url, verify_ssl: Some(ssl) };
            &&& source_block_spec(block) == Ok::<SourceView, ParseError>(src)
            &&& source_as_uv_spec(src) == "name = \""@ + name + "\"\nurl = \""@ + url
                + "\"\nexplicit = true"@
        }),
{
    reveal_strlit("name");
    reveal_strlit("url");
    reveal_strlit("verify_ssl");
    let kname = "name"@;
    let kurl = "url"@;
    let kssl = "verify_ssl"@;
    assert(kname.len() == 4 && kurl.len() == 3 && kssl.len() == 10);
    assert(forall|i: int| 0 <= i < kname.len() ==> kname[i] != '=' && !is_space(#[trigger] kname[i]));
    assert(forall|i: int| 0 <= i < kurl.len() ==> kurl[i] != '=' && !is_space(#[trigger] kurl[i]));
    assert(forall|i: int| 0 <= i < kssl.len() ==> kssl[i] != '=' && !is_space(#[trigger] kssl[i]));
    lemma_canonical_kv_line(kname, name);
    lemma_canonical_kv_line(kurl, url);
    lemma_canonical_kv_line(kssl, ssl);
    let l1 = kname + seq![' ', '=', ' ', '"'] + name + seq!['"'];
    let l2 = kurl + seq![' ', '=', ' ', '"'] + url + seq!['"'];
    let l3 = kssl + seq![' ', '=', ' ', '"'] + ssl + seq!['"'];
    let block = seq![l1, l2, l3];
    assert(!line_blank(l1) && !line_blank(l2) && !line_blank(l3));
    assert(block_well_formed(block)) by {
        assert(block[0] == l1 && block[1] == l2 && block[2] == l3);
        assert(forall|i: int|
            0 <= i < block.len() ==> find_char_spec(#[trigger] block[i], '=') is Some);
    }
    // the block's key/value pairs, line by line
    assert(kv_of_line(l1) == Some((kname, name)));
    assert(kv_of_line(l2) == Some((kurl, url)));
    assert(kv_of_line(l3) == Some((kssl, ssl)));
    let m = map_of_block(block);
    assert(block.drop_last() =~= seq![l1, l2]);
    assert(block.last() == l3);
    assert(seq![l1, l2].drop_last() =~= seq![l1]);
    assert(seq![l1, l2].last() == l2);
    assert(seq![l1].drop_last() =~= Seq::<Seq<char>>::empty());
    assert(seq![l1].last() == l1);
    assert(map_of_block(Seq::<Seq<char>>::empty()) =~= Seq::<(Seq<char>, Seq<char>)>::empty());
    assert(map_of_block(seq![l1]) =~= seq![(kname, name)]);
    assert(map_of_block(seq![l1, l2]) =~= seq![(kname, name), (kurl, url)]);
    assert(m =~= seq![(kname, name), (kurl, url), (kssl, ssl)]);
    // the three keys differ pairwise (their lengths already differ)
    assert(kname != kssl && kurl != kssl && kname != kurl);
    let m2 = seq![(kname, name), (kurl, url)];
    let m1 = seq![(kname, name)];
    assert(m.last() == (kssl, ssl) && m.drop_last() =~= m2);
    assert(m2.last() == (kurl, url) && m2.drop_last() =~= m1);
    assert(m1.last() == (kname, name) && m1.drop_last() =~= Seq::<(Seq<char>, Seq<char>)>::empty());
    assert(map_get(m1, kname) == Some(name));
    assert(map_get(m2, kname) == Some(name));
    assert(map_get(m, kname) == Some(name));
    assert(map_get(m2, kurl) == Some(url));
    assert(map_get(m, kurl) == Some(url));
    assert(map_get(m, kssl) == Some(ssl));
    // the second quote-trim of name and url changes neither
    if name[0] != '"' {
        assert(trim_char_start_spec(name, '"') == name);
        assert(trim_char_end_spec(name, '"') == name);
    }
    assert(trim_char_spec(name, '"') == name);
    assert(trim_char_start_spec(url, '"') == url);
    assert(trim_char_end_spec(url, '"') == url);
    assert(trim_char_spec(url, '"') == url);
}

/// Dev-package partitioning: the non-dev and dev groups split the document's
/// packages without loss — their sizes add up to the total — and each group
/// keeps its packages' original relative order and holds only its own kind.
pub proof fn lemma_dev_partition(ps: Seq<PackageView>)
    ensures
        nondev_seq(ps).len() + dev_seq(ps).len() == ps.len(),
        forall|j: int| 0 <= j < dev_seq(ps).len() ==> (#[trigger] dev_seq(ps)[j]).is_dev,
        forall|j: int| 0 <= j < nondev_seq(ps).len() ==> !(#[trigger] nondev_seq(ps)[j]).is_dev,
    decreases ps.len(),
{
    if ps.len() > 0 {
        lemma_dev_partition(ps.drop_last());
    }
}

/// Indexed-package propagation: every non-dev package carrying an index
/// reference is collected for the source-mapping table, and no dev package
/// ever is, index or not.
pub proof fn lemma_indexed_propagation(ps: Seq<PackageView>)
    ensures
        forall|j: int|
            0 <= j < ps.len() && !(#[trigger] ps[j]).is_dev && ps[j].index is Some ==> indexed_seq(
                ps,
            ).contains(ps[j]),
        forall|j: int|
            0 <= j < indexed_seq(ps).len() ==> !(#[trigger] indexed_seq(ps)[j]).is_dev
                && indexed_seq(ps)[j].index is Some,
        forall|p: PackageView| p.is_dev ==> !indexed_seq(ps).contains(p),
    decreases ps.len(),
{
    if ps.len() > 0 {
        lemma_indexed_propagation(ps.drop_last());
        let prev = indexed_seq(ps.drop_last());
        assert forall|j: int|
            0 <= j < ps.len() && !(#[trigger] ps[j]).is_dev && ps[j].index is Some implies
            indexed_seq(ps).contains(ps[j]) by {
            if j < ps.len() - 1 {
                assert(ps.drop_last()[j] == ps[j]);
                assert(prev.contains(ps[j]));
                let w = choose|w: int| 0 <= w < prev.len() && prev[w] == ps[j];
                assert(indexed_seq(ps)[w] == ps[j]);
            } else {
                assert(indexed_seq(ps).last() == ps[j]);
            }
        }
        assert forall|p: PackageView| p.is_dev implies !indexed_seq(ps).contains(p) by {
            if indexed_seq(ps).contains(p) {
                let w = choose|w: int|
                    0 <= w < indexed_seq(ps).len() && indexed_seq(ps)[w] == p;
                assert(!indexed_seq(ps)[w].is_dev);
            }
        }
    }
}

} // verus!
