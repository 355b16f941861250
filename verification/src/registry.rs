//! The site registry's logic: the newline-delimited file format, which lines
//! count as site names (the non-blank ones), membership, and the set of
//! sites a file's text denotes. Reading and writing the file itself is left
//! to the program around the library.

use vstd::prelude::*;
use vstd::string::StrSliceExecFns;

verus! {

/// The Unicode White_Space codepoints, the characters a blank line may hold.
pub open spec fn is_space_char(c: char) -> bool {
    ||| c == '\u{0009}'
    ||| c == '\u{000A}'
    ||| c == '\u{000B}'
    ||| c == '\u{000C}'
    ||| c == '\u{000D}'
    ||| c == '\u{0020}'
    ||| c == '\u{0085}'
    ||| c == '\u{00A0}'
    ||| c == '\u{1680}'
    ||| ('\u{2000}' <= c && c <= '\u{200A}')
    ||| c == '\u{2028}'
    ||| c == '\u{2029}'
    ||| c == '\u{202F}'
    ||| c == '\u{205F}'
    ||| c == '\u{3000}'
}

/// A line is blank when every character in it is whitespace; an empty line
/// is blank.
pub open spec fn is_blank(line: Seq<char>) -> bool {
    forall|i: int| 0 <= i < line.len() ==> is_space_char(#[trigger] line[i])
}

/// Decides whether one character is whitespace.
pub fn char_is_space(c: char) -> (r: bool)
    ensures
        r == is_space_char(c),
{
    c == '\u{0009}' || c == '\u{000A}' || c == '\u{000B}' || c == '\u{000C}' || c == '\u{000D}'
        || c == '\u{0020}' || c == '\u{0085}' || c == '\u{00A0}' || c == '\u{1680}' || ('\u{2000}'
        <= c && c <= '\u{200A}') || c == '\u{2028}' || c == '\u{2029}' || c == '\u{202F}' || c
        == '\u{205F}' || c == '\u{3000}'
}

/// Decides whether a line is blank.
pub fn line_is_blank(line: &str) -> (r: bool)
    ensures
        r == is_blank(line@),
{
    let n = line.unicode_len();
    let mut i: usize = 0;
    while i < n
        invariant
            i <= n,
            n == line@.len(),
            forall|j: int| 0 <= j < i ==> is_space_char(#[trigger] line@[j]),
        decreases n - i,
    {
        if !char_is_space(line.get_char(i)) {
            return false;
        }
        i += 1;
    }
    true
}

/// The index of the first line feed in a text, or its length when it has
/// none.
pub open spec fn first_newline(text: Seq<char>) -> int
    decreases text.len(),
{
    if text.len() == 0 {
        0
    } else if text[0] == '\n' {
        0
    } else {
        1 + first_newline(text.drop_first())
    }
}

/// A line with a trailing carriage return loses it; any other line stays as
/// it is.
pub open spec fn strip_cr(line: Seq<char>) -> Seq<char> {
    if line.len() > 0 && line[line.len() - 1] == '\r' {
        line.drop_last()
    } else {
        line
    }
}

/// The lines of a text: split at every line feed, a carriage return just
/// before a line feed dropped, and no empty line after a final line feed.
pub open spec fn spec_split_lines(text: Seq<char>) -> Seq<Seq<char>>
    decreases text.len(),
{
    if text.len() == 0 {
        Seq::empty()
    } else {
        let i = first_newline(text);
        if i < 0 || i >= text.len() {
            seq![text]
        } else {
            seq![strip_cr(text.take(i))] + spec_split_lines(text.skip(i + 1))
        }
    }
}

/// first_newline is the index it claims to be: no earlier line feed, and a
/// line feed there unless the text has none.
pub proof fn lemma_first_newline(text: Seq<char>)
    ensures
        0 <= first_newline(text) <= text.len(),
        forall|k: int| 0 <= k < first_newline(text) ==> text[k] != '\n',
        first_newline(text) < text.len() ==> text[first_newline(text)] == '\n',
    decreases text.len(),
{
    if text.len() == 0 {
    } else if text[0] == '\n' {
    } else {
        lemma_first_newline(text.drop_first());
        assert forall|k: int| 0 <= k < first_newline(text) implies text[k] != '\n' by {
            if k > 0 {
                assert(text.drop_first()[k - 1] == text[k]);
            }
        }
    }
}

/// An index with no line feed before it, and a line feed at it unless it is
/// the text's end, is first_newline.
pub proof fn lemma_first_newline_is(text: Seq<char>, i: int)
    requires
        0 <= i <= text.len(),
        forall|k: int| 0 <= k < i ==> text[k] != '\n',
        i < text.len() ==> text[i] == '\n',
    ensures
        first_newline(text) == i,
    decreases text.len(),
{
    if text.len() == 0 {
    } else if text[0] == '\n' {
        assert(i == 0);
    } else {
        assert(i != 0);
        assert forall|k: int| 0 <= k < i - 1 implies text.drop_first()[k] != '\n' by {
            assert(text.drop_first()[k] == text[k + 1]);
        }
        lemma_first_newline_is(text.drop_first(), i - 1);
    }
}

/// Splits a text into its lines: at every line feed, dropping a carriage
/// return that stands just before one, with no empty line after a final
/// line feed.
pub fn split_lines(text: &str) -> (r: Vec<String>)
    ensures
        line_views(r@) == spec_split_lines(text@),
{
    let n = text.unicode_len();
    let mut r: Vec<String> = Vec::new();
    let mut pos: usize = 0;
    proof {
        assert(text@.skip(0) =~= text@);
        assert(line_views(r@) + spec_split_lines(text@) =~~= spec_split_lines(text@));
    }
    while pos < n
        invariant
            pos <= n,
            n == text@.len(),
            spec_split_lines(text@) == line_views(r@) + spec_split_lines(
                text@.skip(pos as int),
            ),
        decreases n - pos,
    {
        let ghost rest = text@.skip(pos as int);
        let mut i: usize = pos;
        let mut found = false;
        while !found && i < n
            invariant
                pos <= i <= n,
                n == text@.len(),
                forall|k: int| pos <= k < i ==> text@[k] != '\n',
                found ==> i < n && text@[i as int] == '\n',
            decreases n - i + (if found { 0int } else { 1int }),
        {
            if text.get_char(i) == '\n' {
                found = true;
            } else {
                i += 1;
            }
        }
        let ghost prev = r@;
        if !found {
            let s = text.substring_char(pos, n).to_owned();
            proof {
                lemma_first_newline_is(rest, n - pos);
                assert(rest =~= text@.subrange(pos as int, n as int));
                assert(spec_split_lines(rest) =~~= seq![s@]);
            }
            r.push(s);
            pos = n;
        } else {
            let end = if i > pos && text.get_char(i - 1) == '\r' {
                i - 1
            } else {
                i
            };
            let s = text.substring_char(pos, end).to_owned();
            proof {
                assert forall|k: int| 0 <= k < i - pos implies rest[k] != '\n' by {
                    assert(rest[k] == text@[pos + k]);
                }
                assert(rest[i - pos] == text@[i as int]);
                lemma_first_newline_is(rest, i - pos);
                assert(rest.take(i - pos) =~= text@.subrange(pos as int, i as int));
                assert(rest.skip(i - pos + 1) =~= text@.skip(i as int + 1));
                assert(strip_cr(text@.subrange(pos as int, i as int)) =~= s@);
                assert(spec_split_lines(rest) =~~= seq![s@] + spec_split_lines(
                    text@.skip(i as int + 1),
                ));
            }
            r.push(s);
            pos = i + 1;
        }
        proof {
            assert(line_views(r@) =~~= line_views(prev).push(r@[r@.len() - 1]@));
            assert(line_views(prev) + spec_split_lines(rest) =~~= line_views(r@)
                + spec_split_lines(text@.skip(pos as int)));
        }
    }
    proof {
        assert(text@.skip(pos as int) =~= Seq::<char>::empty());
        assert(spec_split_lines(text@.skip(pos as int)) =~~= Seq::<Seq<char>>::empty());
        assert(line_views(r@) + spec_split_lines(text@.skip(pos as int)) =~~= line_views(r@));
    }
    r
}

/// The set of site names that a sequence of lines denotes: the non-blank
/// lines, regardless of order or repetition.
pub open spec fn registry_sites(lines: Seq<Seq<char>>) -> Set<Seq<char>> {
    Set::new(|s: Seq<char>| !is_blank(s) && lines.contains(s))
}

/// The views of a vector of lines.
pub open spec fn line_views(lines: Seq<String>) -> Seq<Seq<char>> {
    lines.map_values(|l: String| l@)
}

/// Whether some site in the list has exactly this name.
pub open spec fn site_listed(sites: Seq<String>, name: Seq<char>) -> bool {
    exists|i: int| 0 <= i < sites.len() && (#[trigger] sites[i])@ == name
}

/// Decides whether a name is among the sites.
pub fn contains_site(sites: &Vec<String>, name: &String) -> (r: bool)
    ensures
        r == site_listed(sites@, name@),
{
    let n = sites.len();
    let mut i: usize = 0;
    while i < n
        invariant
            i <= n,
            n == sites@.len(),
            forall|j: int| 0 <= j < i ==> (#[trigger] sites@[j])@ != name@,
        decreases n - i,
    {
        if sites[i].eq(name) {
            return true;
        }
        i += 1;
    }
    false
}

/// Collects the distinct site names among the given lines: every entry is a
/// non-blank line, no name appears twice, and every non-blank line is
/// represented.
pub fn sites_from_lines(lines: &Vec<String>) -> (sites: Vec<String>)
    ensures
        forall|i: int|
            0 <= i < sites@.len() ==> registry_sites(line_views(lines@)).contains(
                (#[trigger] sites@[i])@,
            ),
        forall|i: int| 0 <= i < sites@.len() ==> !is_blank((#[trigger] sites@[i])@),
        forall|i: int, j: int|
            0 <= i < j < sites@.len() ==> (#[trigger] sites@[i])@ != (#[trigger] sites@[j])@,
        forall|s: Seq<char>|
            registry_sites(line_views(lines@)).contains(s) ==> exists|i: int|
                0 <= i < sites@.len() && (#[trigger] sites@[i])@ == s,
{
    let n = lines.len();
    let mut sites: Vec<String> = Vec::new();
    let mut k: usize = 0;
    while k < n
        invariant
            k <= n,
            n == lines@.len(),
            forall|i: int|
                0 <= i < sites@.len() ==> !is_blank((#[trigger] sites@[i])@) && exists|j: int|
                    0 <= j < k && (#[trigger] sites@[i])@ == (lines@[j])@,
            forall|i: int, j: int|
                0 <= i < j < sites@.len() ==> (#[trigger] sites@[i])@ != (#[trigger] sites@[j])@,
            forall|j: int|
                0 <= j < k && !is_blank((#[trigger] lines@[j])@) ==> exists|i: int|
                    0 <= i < sites@.len() && (#[trigger] sites@[i])@ == (lines@[j])@,
        decreases n - k,
    {
        let line = &lines[k];
        if !line_is_blank(line.as_str()) && !contains_site(&sites, line) {
            let ghost prev = sites@;
            sites.push(line.clone());
            proof {
                assert(sites@ == prev.push(lines@[k as int]));
                assert forall|j: int|
                    0 <= j < k + 1 && !is_blank((#[trigger] lines@[j])@) implies exists|i: int|
                    0 <= i < sites@.len() && (#[trigger] sites@[i])@ == (lines@[j])@ by {
                    if j == k {
                        assert(sites@[prev.len() as int]@ == (lines@[j])@);
                    } else {
                        let i = choose|i: int|
                            0 <= i < prev.len() && (#[trigger] prev[i])@ == (lines@[j])@;
                        assert(sites@[i] == prev[i]);
                        assert(sites@[i]@ == (lines@[j])@);
                    }
                }
            }
        }
        k += 1;
    }
    proof {
        assert forall|i: int| 0 <= i < sites@.len() implies registry_sites(
            line_views(lines@),
        ).contains((sites@[i])@) by {
            let j = choose|j: int| 0 <= j < k && (#[trigger] sites@[i])@ == (lines@[j])@;
            assert(line_views(lines@)[j] == (lines@[j])@);
            assert(line_views(lines@).contains((sites@[i])@));
        }
        assert forall|s: Seq<char>|
            registry_sites(line_views(lines@)).contains(s) implies exists|i: int|
            0 <= i < sites@.len() && (#[trigger] sites@[i])@ == s by {
            let j = choose|j: int| 0 <= j < line_views(lines@).len() && line_views(lines@)[j] == s;
            assert((lines@[j])@ == s);
        }
    }
    sites
}

/// Law: appending a non-blank name to the registry's lines makes it a listed
/// site, and every previously listed site stays listed.
pub proof fn lemma_append_then_listed(lines: Seq<Seq<char>>, name: Seq<char>)
    requires
        !is_blank(name),
    ensures
        registry_sites(lines.push(name)).contains(name),
        forall|s: Seq<char>|
            registry_sites(lines).contains(s) ==> registry_sites(lines.push(name)).contains(s),
{
    assert(lines.push(name)[lines.len() as int] == name);
    assert(lines.push(name).contains(name));
    assert forall|s: Seq<char>| registry_sites(lines).contains(s) implies registry_sites(
        lines.push(name),
    ).contains(s) by {
        let j = choose|j: int| 0 <= j < lines.len() && lines[j] == s;
        assert(lines.push(name)[j] == s);
        assert(lines.push(name).contains(s));
    }
}

/// Splitting distributes over concatenation at a line boundary: when a text
/// is empty or ends with a line feed, the lines of the text followed by more
/// text are the lines of each part.
pub proof fn lemma_split_lines_concat(text: Seq<char>, rest: Seq<char>)
    requires
        text.len() == 0 || text[text.len() - 1] == '\n',
    ensures
        spec_split_lines(text + rest) == spec_split_lines(text) + spec_split_lines(rest),
    decreases text.len(),
{
    if text.len() == 0 {
        assert(text + rest =~= rest);
        assert(spec_split_lines(text) + spec_split_lines(rest) =~~= spec_split_lines(rest));
    } else {
        lemma_first_newline(text);
        let i = first_newline(text);
        assert(i < text.len()) by {
            if i == text.len() {
                assert(text[text.len() - 1] != '\n');
            }
        }
        assert forall|k: int| 0 <= k < i implies (text + rest)[k] != '\n' by {
            assert((text + rest)[k] == text[k]);
        }
        assert((text + rest)[i] == text[i]);
        lemma_first_newline_is(text + rest, i);
        assert((text + rest).take(i) =~= text.take(i));
        assert((text + rest).skip(i + 1) =~= text.skip(i + 1) + rest);
        let tail = text.skip(i + 1);
        assert(tail.len() == 0 || tail[tail.len() - 1] == '\n') by {
            if tail.len() > 0 {
                assert(tail[tail.len() - 1] == text[text.len() - 1]);
            }
        }
        lemma_split_lines_concat(tail, rest);
        assert(spec_split_lines(text + rest) =~~= spec_split_lines(text) + spec_split_lines(
            rest,
        ));
    }
}

/// A site name fit for one registry line: not blank, free of line feeds,
/// and not ending in a carriage return, so that writing it as a line and
/// reading the file back yields it unchanged.
pub open spec fn is_site_line(name: Seq<char>) -> bool {
    &&& !is_blank(name)
    &&& forall|k: int| 0 <= k < name.len() ==> name[k] != '\n'
    &&& name[name.len() - 1] != '\r'
}

/// Law: the registry round trip. Appending a site name and a line feed to
/// the file's text — which is empty or ends with a line feed, as a file of
/// appended lines always is — makes the name a listed site, and every site
/// listed before stays listed.
pub proof fn lemma_append_line_round_trip(text: Seq<char>, name: Seq<char>)
    requires
        text.len() == 0 || text[text.len() - 1] == '\n',
        is_site_line(name),
    ensures
        registry_sites(spec_split_lines(text + name + seq!['\n'])).contains(name),
        forall|s: Seq<char>|
            registry_sites(spec_split_lines(text)).contains(s) ==> registry_sites(
                spec_split_lines(text + name + seq!['\n']),
            ).contains(s),
{
    let line = name + seq!['\n'];
    assert(text + name + seq!['\n'] =~= text + line);
    lemma_split_lines_concat(text, line);
    assert forall|k: int| 0 <= k < name.len() implies line[k] != '\n' by {
        assert(line[k] == name[k]);
    }
    assert(line[name.len() as int] == '\n');
    lemma_first_newline_is(line, name.len() as int);
    assert(name.len() > 0) by {
        if name.len() == 0 {
            assert(is_blank(name));
        }
    }
    assert(strip_cr(name) == name);
    assert(line.take(name.len() as int) =~= name);
    assert(line.skip(name.len() as int + 1) =~= Seq::<char>::empty());
    assert(spec_split_lines(Seq::<char>::empty()) =~~= Seq::<Seq<char>>::empty());
    assert(spec_split_lines(line) =~~= seq![name]);
    assert(spec_split_lines(text + line) =~~= spec_split_lines(text).push(name));
    lemma_append_then_listed(spec_split_lines(text), name);
}

/// Law: a blank line never counts as a listed site.
pub proof fn lemma_blank_not_listed(lines: Seq<Seq<char>>, line: Seq<char>)
    requires
        is_blank(line),
    ensures
        !registry_sites(lines).contains(line),
{
}

} // verus!
