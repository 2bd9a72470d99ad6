//! The table of countries and their codes.

use crate::text::{chars_of, same_text, split, split_spec, string_of, views};
use vstd::prelude::*;

verus! {

/// A country's name and its code.
#[derive(Clone, Debug, PartialEq, Eq)]
pub struct Country {
    pub name: String,
    pub code: String,
}

/// The mathematical content of a [`Country`].
pub struct CountryView {
    pub name: Seq<char>,
    pub code: Seq<char>,
}

impl View for Country {
    type V = CountryView;

    open spec fn view(&self) -> CountryView {
        CountryView { name: self.name@, code: self.code@ }
    }
}

/// The views of a table of countries.
pub open spec fn country_views(table: Seq<Country>) -> Seq<CountryView> {
    Seq::new(table.len(), |i: int| table[i]@)
}

/// The country that a line of the table describes: the name in the first
/// column and the code in the third. A line with fewer columns describes
/// none.
pub open spec fn country_of(line: Seq<char>) -> Option<CountryView> {
    let columns = split_spec(line, ',');
    if columns.len() >= 3 {
        Some(CountryView { name: columns[0], code: columns[2] })
    } else {
        None
    }
}

/// The countries that the lines describe, if every line describes one.
pub open spec fn countries_of(lines: Seq<Seq<char>>) -> Option<Seq<CountryView>>
    decreases lines.len(),
{
    if lines.len() == 0 {
        Some(Seq::empty())
    } else {
        match (countries_of(lines.drop_last()), country_of(lines.last())) {
            (Some(before), Some(country)) => Some(before.push(country)),
            _ => None,
        }
    }
}

/// The table that a comma-separated text holds, one country to a line after
/// a heading line.
pub open spec fn read_countries_spec(csv: Seq<char>) -> Option<Seq<CountryView>> {
    countries_of(split_spec(csv, '\n').drop_first())
}

/// The view of an optional table.
pub open spec fn table_view(table: Option<Vec<Country>>) -> Option<Seq<CountryView>> {
    match table {
        Some(t) => Some(country_views(t@)),
        None => None,
    }
}

/// Reads the table of countries from comma-separated text. The first line is
/// a heading. There is no table if a line has fewer than three columns.
pub fn read_countries(csv: &str) -> (table: Option<Vec<Country>>)
    ensures
        table_view(table) == read_countries_spec(csv@),
{
    let chars = chars_of(csv);
    let lines = split(&chars, '\n');
    proof {
        crate::text::lemma_split_nonempty(csv@, '\n');
    }
    let ghost all = views(lines@).drop_first();
    let mut table: Vec<Country> = Vec::new();
    assert(country_views(table@) == Seq::<CountryView>::empty());
    let mut i: usize = 1;
    while i < lines.len()
        invariant
            1 <= i <= lines.len(),
            all == views(lines@).drop_first(),
            views(lines@) == split_spec(csv@, '\n'),
            countries_of(all.take(i as int - 1)) == Some(country_views(table@)),
        decreases lines.len() - i,
    {
        proof {
            assert(all.take(i as int).drop_last() == all.take(i as int - 1));
            assert(all.take(i as int).last() == lines@[i as int]@);
        }
        let columns = split(&lines[i], ',');
        assert(views(columns@).len() == columns@.len());
        if columns.len() < 3 {
            proof {
                assert(country_of(all.take(i as int).last()) is None);
                assert(countries_of(all.take(i as int)) is None);
                lemma_countries_none_stays(all, i as int);
            }
            return None;
        }
        assert(views(columns@)[0] == columns@[0]@);
        assert(views(columns@)[2] == columns@[2]@);
        let country = Country { name: string_of(&columns[0]), code: string_of(&columns[2]) };
        let ghost before = country_views(table@);
        table.push(country);
        assert(country_views(table@) == before.push(country@));
        i += 1;
    }
    assert(all.take(lines.len() as int - 1) == all);
    Some(table)
}

/// Where the first `k` lines hold no table, neither do all of them.
pub proof fn lemma_countries_none_stays(lines: Seq<Seq<char>>, k: int)
    requires
        0 <= k <= lines.len(),
        countries_of(lines.take(k)) is None,
    ensures
        countries_of(lines) is None,
    decreases lines.len(),
{
    if k == lines.len() {
        assert(lines.take(k) == lines);
    } else {
        assert(lines.drop_last().take(k) == lines.take(k));
        lemma_countries_none_stays(lines.drop_last(), k);
    }
}

/// Whether the table has a country called `country`.
pub fn validate_country_by_name(table: &Vec<Country>, country: &str) -> (found: bool)
    ensures
        found == exists|i: int|
            0 <= i < table.len() && (#[trigger] country_views(table@)[i]).name == country@,
{
    let mut i: usize = 0;
    while i < table.len()
        invariant
            i <= table.len(),
            forall|j: int| 0 <= j < i ==> (#[trigger] country_views(table@)[j]).name != country@,
        decreases table.len() - i,
    {
        if same_text(table[i].name.as_str(), country) {
            assert(country_views(table@)[i as int].name == country@);
            return true;
        }
        i += 1;
    }
    false
}

/// Whether the table has a country with the code `country_code`.
pub fn validate_country_by_code(table: &Vec<Country>, country_code: &str) -> (found: bool)
    ensures
        found == exists|i: int|
            0 <= i < table.len() && (#[trigger] country_views(table@)[i]).code == country_code@,
{
    let mut i: usize = 0;
    while i < table.len()
        invariant
            i <= table.len(),
            forall|j: int|
                0 <= j < i ==> (#[trigger] country_views(table@)[j]).code != country_code@,
        decreases table.len() - i,
    {
        if same_text(table[i].code.as_str(), country_code) {
            assert(country_views(table@)[i as int].code == country_code@);
            return true;
        }
        i += 1;
    }
    false
}

} // verus!
