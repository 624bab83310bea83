//! Reading the toggle list that a worker prints in its introspection mode.
//!
//! The output carries the list twice, each time under the same header line.
//! The entries wanted are the ones after the second header; they end at the
//! first line that is not an entry.

use vstd::prelude::*;
use vstd::string::*;
use crate::codec::texts;
use crate::table::PreferenceTable;

verus! {

/// The response to a query for a language's toggles.
#[derive(Debug)]
pub struct GramcheckPreferencesResponse {
    pub error_tags: PreferenceTable,
}

/// The capture groups of the leftmost match of the regular expression
/// `pattern` in `haystack`, whole match first; a group that took no part in
/// the match is `None`. The result is `None` where nothing matches, and
/// where `pattern` is not a regular expression.
pub uninterp spec fn regex_captures(pattern: Seq<char>, haystack: Seq<char>) -> Option<
    Seq<Option<Seq<char>>>,
>;

/// The texts of a list of capture groups.
pub open spec fn groups_view(groups: Seq<Option<String>>) -> Seq<Option<Seq<char>>> {
    Seq::new(
        groups.len(),
        |i: int|
            match groups[i] {
                Some(s) => Some(s@),
                None => None,
            },
    )
}

/// The texts of what a search for captures found.
pub open spec fn captures_view(found: Option<Vec<Option<String>>>) -> Option<Seq<Option<Seq<char>>>> {
    match found {
        Some(groups) => Some(groups_view(groups@)),
        None => None,
    }
}

/// `regex::Regex::new` followed by `regex::Regex::captures`. Assumed: the
/// groups found depend on the pattern and the haystack alone, so they can be
/// called `regex_captures(pattern, haystack)`.
#[verifier::external_body]
fn captures(pattern: &str, haystack: &str) -> (groups: Option<Vec<Option<String>>>)
    ensures
        captures_view(groups) == regex_captures(pattern@, haystack@),
{
    match regex::Regex::new(pattern) {
        Ok(re) => re.captures(haystack).map(
            |found| found.iter().map(|group| group.map(|m| m.as_str().to_owned())).collect(),
        ),
        Err(_) => None,
    }
}

/// The line that opens each copy of the toggle list.
pub const TOGGLES_HEADER: &'static str = "==== Toggles: ====";

/// The shape of an entry, as a regular expression: a checkbox, an identifier
/// without whitespace or `+`, whitespace, and a description up to the end of
/// the line.
pub const ENTRY_PATTERN: &'static str = "- \\[.\\] ([^\\s+]+)\\s+(.+)$";

/// The identifier of rules that cannot be toggled; such entries are left out.
pub const RESERVED_IDENTIFIER: &'static str = "[regex]";

/// The text of [`TOGGLES_HEADER`].
pub open spec fn toggles_header() -> Seq<char> {
    TOGGLES_HEADER@
}

/// The text of [`ENTRY_PATTERN`].
pub open spec fn entry_pattern() -> Seq<char> {
    ENTRY_PATTERN@
}

/// The text of [`RESERVED_IDENTIFIER`].
pub open spec fn reserved_identifier() -> Seq<char> {
    RESERVED_IDENTIFIER@
}

/// The identifier and description in the groups of a matched entry. An entry
/// has exactly two groups besides the whole match, and both took part.
pub open spec fn entry_of(groups: Option<Seq<Option<Seq<char>>>>) -> Option<(Seq<char>, Seq<char>)> {
    match groups {
        Some(g) => if g.len() == 3 && g[1] is Some && g[2] is Some {
            Some((g[1]->0, g[2]->0))
        } else {
            None
        },
        None => None,
    }
}

/// The entry that a line holds, if it is one.
pub open spec fn line_entry(line: Seq<char>) -> Option<(Seq<char>, Seq<char>)> {
    entry_of(regex_captures(entry_pattern(), line))
}

/// The lines after the first line that equals `marker`; none if no line does.
pub open spec fn lines_after(lines: Seq<Seq<char>>, marker: Seq<char>) -> Seq<Seq<char>>
    decreases lines.len(),
{
    if lines.len() == 0 {
        lines
    } else if lines[0] == marker {
        lines.drop_first()
    } else {
        lines_after(lines.drop_first(), marker)
    }
}

/// The entries up to the first `None`.
pub open spec fn leading_entries(matches: Seq<Option<(Seq<char>, Seq<char>)>>) -> Seq<
    (Seq<char>, Seq<char>),
>
    decreases matches.len(),
{
    if matches.len() == 0 {
        Seq::empty()
    } else {
        match matches[0] {
            Some(entry) => seq![entry] + leading_entries(matches.drop_first()),
            None => Seq::empty(),
        }
    }
}

/// The table that a list of entries builds when they are inserted one after
/// another, those of the reserved identifier left out: where an identifier
/// comes twice, its later description stands.
pub open spec fn table_of(entries: Seq<(Seq<char>, Seq<char>)>) -> Map<Seq<char>, Seq<char>>
    decreases entries.len(),
{
    if entries.len() == 0 {
        Map::empty()
    } else if entries.last().0 == reserved_identifier() {
        table_of(entries.drop_last())
    } else {
        table_of(entries.drop_last()).insert(entries.last().0, entries.last().1)
    }
}

/// The table that a list of match results gives: built from the entries up
/// to the first line that did not match.
pub open spec fn collected(matches: Seq<Option<(Seq<char>, Seq<char>)>>) -> Map<Seq<char>, Seq<char>> {
    table_of(leading_entries(matches))
}

/// The table that an introspection output gives.
pub open spec fn preferences_of(lines: Seq<Seq<char>>) -> Map<Seq<char>, Seq<char>> {
    let section = lines_after(lines_after(lines, toggles_header()), toggles_header());
    collected(Seq::new(section.len(), |i: int| line_entry(section[i])))
}

/// The texts of a list of match results.
pub open spec fn matches_view(matches: Seq<Option<(String, String)>>) -> Seq<
    Option<(Seq<char>, Seq<char>)>,
> {
    Seq::new(
        matches.len(),
        |i: int|
            match matches[i] {
                Some(entry) => Some((entry.0@, entry.1@)),
                None => None,
            },
    )
}

/// The first `count` match results, taken as entries.
pub open spec fn entries_before(matches: Seq<Option<(Seq<char>, Seq<char>)>>, count: int) -> Seq<
    (Seq<char>, Seq<char>),
> {
    Seq::new(count as nat, |i: int| matches[i]->0)
}

/// Where the first `count` results are matches, and the next one is not or
/// there is none, the leading entries are those first `count`.
pub proof fn lemma_leading_entries(matches: Seq<Option<(Seq<char>, Seq<char>)>>, count: int)
    requires
        0 <= count <= matches.len(),
        forall|i: int| 0 <= i < count ==> (#[trigger] matches[i]) is Some,
        count == matches.len() || matches[count] is None,
    ensures
        leading_entries(matches) == entries_before(matches, count),
    decreases count,
{
    if count > 0 {
        let rest = matches.drop_first();
        assert forall|i: int| 0 <= i < count - 1 implies (#[trigger] rest[i]) is Some by {
            assert(rest[i] == matches[i + 1]);
        }
        lemma_leading_entries(rest, count - 1);
    }
}

/// No table holds the reserved identifier.
pub proof fn lemma_reserved_left_out(entries: Seq<(Seq<char>, Seq<char>)>)
    ensures
        !table_of(entries).contains_key(reserved_identifier()),
        table_of(entries).dom().finite(),
    decreases entries.len(),
{
    if entries.len() > 0 {
        lemma_reserved_left_out(entries.drop_last());
    }
}

/// Reads the identifier and the description out of the capture groups of a
/// line; `None` where the line did not match.
pub fn toggle_entry(groups: &Option<Vec<Option<String>>>) -> (entry: Option<(String, String)>)
    ensures
        match entry {
            Some(e) => entry_of(captures_view(*groups)) == Some((e.0@, e.1@)),
            None => entry_of(captures_view(*groups)) is None,
        },
{
    match groups {
        Some(g) => {
            if g.len() != 3 {
                return None;
            }
            match (&g[1], &g[2]) {
                (Some(identifier), Some(description)) => Some(
                    (identifier.clone(), description.clone()),
                ),
                _ => None,
            }
        },
        None => None,
    }
}

/// Builds the table from the match results of successive lines: entries are
/// taken up to the first line that did not match, and reserved ones skipped.
pub fn collect_preferences(matches: &Vec<Option<(String, String)>>) -> (table: PreferenceTable)
    ensures
        table.wf(),
        table@ == collected(matches_view(matches@)),
        !table@.contains_key(reserved_identifier()),
{
    let ghost all = matches_view(matches@);
    let reserved = String::from_str(RESERVED_IDENTIFIER);
    let mut table = PreferenceTable::new();
    let mut i: usize = 0;
    while i < matches.len()
        invariant_except_break
            forall|j: int| 0 <= j < i ==> (#[trigger] all[j]) is Some,
        invariant
            i <= matches.len(),
            all == matches_view(matches@),
            reserved@ == reserved_identifier(),
            table.wf(),
            table@ == table_of(entries_before(all, i as int)),
        ensures
            forall|j: int| 0 <= j < i ==> (#[trigger] all[j]) is Some,
            i == matches.len() || all[i as int] is None,
        decreases matches.len() - i,
    {
        match &matches[i] {
            Some(entry) => {
                assert(entries_before(all, i + 1).drop_last() == entries_before(all, i as int));
                if entry.0 != reserved {
                    table.insert(entry.0.clone(), entry.1.clone());
                }
            },
            None => {
                break;
            },
        }
        i = i + 1;
    }
    proof {
        lemma_leading_entries(all, i as int);
        lemma_reserved_left_out(entries_before(all, i as int));
    }
    table
}

fn skip_past(lines: &Vec<String>, from: usize, marker: &String) -> (next: usize)
    requires
        from <= lines.len(),
    ensures
        from <= next <= lines.len(),
        texts(lines@).skip(next as int) == lines_after(texts(lines@).skip(from as int), marker@),
{
    let ghost all = texts(lines@);
    let mut i = from;
    while i < lines.len()
        invariant
            from <= i <= lines.len(),
            all == texts(lines@),
            lines_after(all.skip(from as int), marker@) == lines_after(all.skip(i as int), marker@),
        decreases lines.len() - i,
    {
        assert(all.skip(i as int).drop_first() == all.skip(i + 1));
        if lines[i] == *marker {
            return i + 1;
        }
        i = i + 1;
    }
    i
}

/// Where the toggle list begins: the index of the line after the second
/// header, or the number of lines if there are not two headers.
pub fn toggle_section(lines: &Vec<String>) -> (start: usize)
    ensures
        start <= lines.len(),
        texts(lines@).skip(start as int) == lines_after(
            lines_after(texts(lines@), toggles_header()),
            toggles_header(),
        ),
{
    let header = String::from_str(TOGGLES_HEADER);
    assert(texts(lines@).skip(0) == texts(lines@));
    let first = skip_past(lines, 0, &header);
    skip_past(lines, first, &header)
}

/// Reads the table of toggles out of the lines that a worker printed in its
/// introspection mode. Output without two headers, or without an entry
/// after the second, gives the empty table.
pub fn list_preferences(lines: &Vec<String>) -> (table: PreferenceTable)
    ensures
        table.wf(),
        table@ == preferences_of(texts(lines@)),
        !table@.contains_key(reserved_identifier()),
{
    let start = toggle_section(lines);
    let ghost section = texts(lines@).skip(start as int);
    let ghost all = Seq::new(section.len(), |i: int| line_entry(section[i]));
    let mut matches: Vec<Option<(String, String)>> = Vec::new();
    let mut i = start;
    while i < lines.len()
        invariant_except_break
            matches@.len() == i - start,
        invariant
            start <= i <= lines.len(),
            section == texts(lines@).skip(start as int),
            all == Seq::new(section.len(), |i: int| line_entry(section[i])),
            matches@.len() <= all.len(),
            forall|j: int| 0 <= j < matches@.len() ==> matches_view(matches@)[j] == all[j],
            forall|j: int| 0 <= j < i - start ==> (#[trigger] all[j]) is Some,
        ensures
            i - start == all.len() || all[i - start] is None,
            matches@.len() == i - start || matches@.len() == i - start + 1,
        decreases lines.len() - i,
    {
        let found = captures(ENTRY_PATTERN, lines[i].as_str());
        let entry = toggle_entry(&found);
        let stop = entry.is_none();
        matches.push(entry);
        if stop {
            break;
        }
        i = i + 1;
    }
    proof {
        let got = matches_view(matches@);
        let count = i - start;
        assert forall|j: int| 0 <= j < count implies (#[trigger] got[j]) is Some by {
            assert(got[j] == all[j]);
        }
        lemma_leading_entries(got, count);
        lemma_leading_entries(all, count);
        assert(entries_before(got, count) =~= entries_before(all, count));
    }
    collect_preferences(&matches)
}

} // verus!
