//! Per-category collection of records, schema discovery, and rendering of
//! schema-aligned rows.

use vstd::prelude::*;
use crate::game::{category_index, GameStats, StatsType, CATEGORY_COUNT};
use crate::markup::texts_view;
use crate::rows::{fields_view, records_view, Record, RecordV};
use crate::text::{decimal, decimal_string};

verus! {

/// Where a record comes from: season, week and game.
pub struct Coordinate {
    pub year: u32,
    pub week: u32,
    pub game_id: String,
}

pub struct CoordV {
    pub year: u32,
    pub week: u32,
    pub game_id: Seq<char>,
}

impl View for Coordinate {
    type V = CoordV;

    open spec fn view(&self) -> CoordV {
        CoordV { year: self.year, week: self.week, game_id: self.game_id@ }
    }
}

impl Coordinate {
    pub fn duplicate(&self) -> (r: Coordinate)
        ensures
            r@ == self@,
    {
        Coordinate { year: self.year, week: self.week, game_id: self.game_id.clone() }
    }
}

pub open spec fn entries_view(es: Seq<(Coordinate, Record)>) -> Seq<(CoordV, RecordV)> {
    es.map_values(|e: (Coordinate, Record)| (e.0@, e.1@))
}

/// The field names of a record, in its order.
pub open spec fn keys_of(fs: Seq<(Seq<char>, Seq<char>)>) -> Seq<Seq<char>> {
    fs.map_values(|p: (Seq<char>, Seq<char>)| p.0)
}

/// A category's schema: the field names of its first record, once it has one.
pub open spec fn schema_of(entries: Seq<(CoordV, RecordV)>) -> Option<Seq<Seq<char>>> {
    if entries.len() == 0 {
        None
    } else {
        Some(keys_of(entries[0].1.fields))
    }
}

/// A category's schema is fixed by its first record: records that come later,
/// whatever fields they bring, leave it as it is.
pub proof fn lemma_schema_frozen(entries: Seq<(CoordV, RecordV)>, later: Seq<(CoordV, RecordV)>)
    requires
        entries.len() > 0,
    ensures
        schema_of(entries + later) == schema_of(entries),
        schema_of(entries + later) == Some(keys_of(entries[0].1.fields)),
{
    assert((entries + later)[0] == entries[0]);
}

/// A game's records of one category, each with the game's coordinate.
pub open spec fn tagged(coord: CoordV, recs: Seq<RecordV>) -> Seq<(CoordV, RecordV)> {
    recs.map_values(|r: RecordV| (coord, r))
}

/// The value of field `k`: that of the first entry named so.
pub open spec fn lookup(fs: Seq<(Seq<char>, Seq<char>)>, k: Seq<char>) -> Option<Seq<char>>
    decreases fs.len(),
{
    if fs.len() == 0 {
        None
    } else if fs[0].0 == k {
        Some(fs[0].1)
    } else {
        lookup(fs.subrange(1, fs.len() as int), k)
    }
}

/// The text of field `k` in an output row: its value, or empty when absent.
pub open spec fn cell_value(fs: Seq<(Seq<char>, Seq<char>)>, k: Seq<char>) -> Seq<char> {
    match lookup(fs, k) {
        Some(v) => v,
        None => Seq::empty(),
    }
}

/// An output row: the coordinate's three columns, then one value per schema
/// field in schema order. Fields outside the schema do not appear.
pub open spec fn rendered(schema: Seq<Seq<char>>, coord: CoordV, rec: RecordV) -> Seq<Seq<char>> {
    seq![decimal(coord.year as nat), decimal(coord.week as nat), coord.game_id] + schema.map_values(
        |f: Seq<char>| cell_value(rec.fields, f),
    )
}

/// The header row: the coordinate columns' names, then the schema.
pub open spec fn header_of(schema: Seq<Seq<char>>) -> Seq<Seq<char>> {
    seq!["year"@, "week"@, "game_id"@] + schema
}

/// Number of leading coordinate columns.
pub const LEADING_COLUMNS: usize = 3;

/// The fields that a row gives back under a schema: each schema field with the
/// column after the coordinate columns at its position, as far as the row goes.
pub open spec fn parsed(schema: Seq<Seq<char>>, row: Seq<Seq<char>>) -> Seq<(Seq<char>, Seq<char>)> {
    let n: int = if row.len() < LEADING_COLUMNS {
        0
    } else if row.len() - LEADING_COLUMNS < schema.len() {
        row.len() - LEADING_COLUMNS
    } else {
        schema.len() as int
    };
    Seq::new(n as nat, |i: int| (schema[i], row[i + LEADING_COLUMNS]))
}

pub open spec fn rows_view(rows: Seq<Vec<String>>) -> Seq<Seq<Seq<char>>> {
    rows.map_values(|r: Vec<String>| texts_view(r@))
}

/// The text of field `k` of a record, empty where the record lacks it.
pub fn field_value(fs: &Vec<(String, String)>, k: &String) -> (r: String)
    ensures
        r@ == cell_value(fields_view(fs@), k@),
{
    let ghost fv = fields_view(fs@);
    let mut i: usize = 0;
    assert(fv.subrange(0, fv.len() as int) =~= fv);
    while i < fs.len()
        invariant
            fv == fields_view(fs@),
            i <= fs@.len(),
            lookup(fv, k@) == lookup(fv.subrange(i as int, fv.len() as int), k@),
        decreases fs@.len() - i,
    {
        let ghost rest = fv.subrange(i as int, fv.len() as int);
        assert(rest.subrange(1, rest.len() as int) =~= fv.subrange(i + 1, fv.len() as int));
        assert(rest[0] == (fs@[i as int].0@, fs@[i as int].1@));
        if fs[i].0 == *k {
            return fs[i].1.clone();
        }
        i = i + 1;
    }
    assert(fv.subrange(i as int, fv.len() as int).len() == 0);
    String::new()
}

/// The output row of a record under a schema.
pub fn render_row(schema: &Vec<String>, coord: &Coordinate, record: &Record) -> (r: Vec<String>)
    ensures
        texts_view(r@) == rendered(texts_view(schema@), coord@, record@),
{
    let mut row: Vec<String> = Vec::new();
    row.push(decimal_string(coord.year));
    row.push(decimal_string(coord.week));
    row.push(coord.game_id.clone());
    let mut i: usize = 0;
    while i < schema.len()
        invariant
            i <= schema@.len(),
            row@.len() == LEADING_COLUMNS + i,
            row@[0]@ == decimal(coord.year as nat),
            row@[1]@ == decimal(coord.week as nat),
            row@[2]@ == coord.game_id@,
            forall|j: int| 0 <= j < i ==> (#[trigger] row@[j + LEADING_COLUMNS])@ == cell_value(fields_view(record.fields@), schema@[j]@),
        decreases schema@.len() - i,
    {
        let v = field_value(&record.fields, &schema[i]);
        row.push(v);
        assert(row@[i + LEADING_COLUMNS]@ == cell_value(fields_view(record.fields@), schema@[i as int]@));
        i = i + 1;
    }
    assert(texts_view(row@) =~= rendered(texts_view(schema@), coord@, record@)) by {
        assert forall|j: int| LEADING_COLUMNS <= j < row@.len() implies #[trigger] texts_view(row@)[j]
            == rendered(texts_view(schema@), coord@, record@)[j] by {
            assert(row@[(j - LEADING_COLUMNS) + LEADING_COLUMNS] == row@[j]);
        }
    }
    row
}

/// The header row for a schema.
pub fn header_row(schema: &Vec<String>) -> (r: Vec<String>)
    ensures
        texts_view(r@) == header_of(texts_view(schema@)),
{
    let mut row: Vec<String> = Vec::new();
    row.push(String::from_str("year"));
    row.push(String::from_str("week"));
    row.push(String::from_str("game_id"));
    let mut i: usize = 0;
    while i < schema.len()
        invariant
            i <= schema@.len(),
            row@.len() == LEADING_COLUMNS + i,
            row@[0]@ == "year"@,
            row@[1]@ == "week"@,
            row@[2]@ == "game_id"@,
            forall|j: int| 0 <= j < i ==> (#[trigger] row@[j + LEADING_COLUMNS])@ == schema@[j]@,
        decreases schema@.len() - i,
    {
        row.push(schema[i].clone());
        i = i + 1;
    }
    assert(texts_view(row@) =~= header_of(texts_view(schema@))) by {
        assert forall|j: int| LEADING_COLUMNS <= j < row@.len() implies #[trigger] texts_view(row@)[j]
            == header_of(texts_view(schema@))[j] by {
            assert(row@[(j - LEADING_COLUMNS) + LEADING_COLUMNS] == row@[j]);
        }
    }
    row
}

/// Reads an output row back into fields under the schema it was written with.
pub fn parse_row(schema: &Vec<String>, row: &Vec<String>) -> (r: Vec<(String, String)>)
    ensures
        fields_view(r@) == parsed(texts_view(schema@), texts_view(row@)),
{
    let mut out: Vec<(String, String)> = Vec::new();
    let mut i: usize = 0;
    while i < schema.len() && LEADING_COLUMNS <= row.len() && i < row.len() - LEADING_COLUMNS
        invariant
            i <= schema@.len(),
            out@.len() == i,
            LEADING_COLUMNS + i <= row@.len() || i == 0,
            forall|j: int| 0 <= j < i ==> ((#[trigger] out@[j]).0@, out@[j].1@) == (schema@[j]@, row@[j + LEADING_COLUMNS]@),
        decreases schema@.len() - i,
    {
        out.push((schema[i].clone(), row[i + LEADING_COLUMNS].clone()));
        i = i + 1;
    }
    assert(fields_view(out@) =~= parsed(texts_view(schema@), texts_view(row@)));
    out
}

/// Reading back a rendered row with the schema it was rendered with gives each
/// schema field with the record's value for it, or an empty value where the
/// record lacks it; a field that the record has comes back exactly.
pub proof fn lemma_render_parse_round_trip(schema: Seq<Seq<char>>, coord: CoordV, rec: RecordV)
    ensures
        parsed(schema, rendered(schema, coord, rec)) == schema.map_values(
            |f: Seq<char>| (f, cell_value(rec.fields, f)),
        ),
        forall|i: int|
            0 <= i < schema.len() && #[trigger] lookup(rec.fields, schema[i]) is Some ==> parsed(
                schema,
                rendered(schema, coord, rec),
            )[i] == (schema[i], lookup(rec.fields, schema[i])->0),
{
    let row = rendered(schema, coord, rec);
    assert(row.len() == LEADING_COLUMNS + schema.len());
    assert(parsed(schema, row) =~= schema.map_values(|f: Seq<char>| (f, cell_value(rec.fields, f))));
}

/// The records of a batch, by category in category order, with the schema
/// that each category's first record fixed.
pub struct Aggregator {
    schemas: Vec<Vec<String>>,
    entries: Vec<Vec<(Coordinate, Record)>>,
}

impl View for Aggregator {
    type V = Seq<Seq<(CoordV, RecordV)>>;

    closed spec fn view(&self) -> Seq<Seq<(CoordV, RecordV)>> {
        self.entries@.map_values(|es: Vec<(Coordinate, Record)>| entries_view(es@))
    }
}

impl Aggregator {
    /// One schema and one record list per category; a category's schema is
    /// the field names of its first record.
    pub closed spec fn wf(&self) -> bool {
        &&& self.schemas@.len() == CATEGORY_COUNT
        &&& self.entries@.len() == CATEGORY_COUNT
        &&& forall|c: int|
            0 <= c < CATEGORY_COUNT && (#[trigger] self.entries@[c])@.len() > 0 ==> schema_of(
                entries_view(self.entries@[c]@),
            ) == Some(texts_view(self.schemas@[c]@))
    }

    /// An aggregator that holds no record.
    pub fn new() -> (r: Aggregator)
        ensures
            r.wf(),
            r@ == Seq::new(CATEGORY_COUNT as nat, |c: int| Seq::<(CoordV, RecordV)>::empty()),
    {
        let mut schemas: Vec<Vec<String>> = Vec::new();
        let mut entries: Vec<Vec<(Coordinate, Record)>> = Vec::new();
        let mut i: usize = 0;
        while i < CATEGORY_COUNT
            invariant
                i <= CATEGORY_COUNT,
                schemas@.len() == i,
                entries@.len() == i,
                forall|c: int| 0 <= c < i ==> (#[trigger] entries@[c])@.len() == 0,
            decreases CATEGORY_COUNT - i,
        {
            schemas.push(Vec::new());
            entries.push(Vec::new());
            i = i + 1;
        }
        let r = Aggregator { schemas, entries };
        assert(r@ =~= Seq::new(CATEGORY_COUNT as nat, |c: int| Seq::<(CoordV, RecordV)>::empty())) by {
            assert forall|c: int| 0 <= c < CATEGORY_COUNT implies #[trigger] r@[c] =~= Seq::<(CoordV, RecordV)>::empty() by {
                assert(r.entries@[c]@.len() == 0);
            }
        }
        r
    }

    /// Appends a record to its category; the first record of a category fixes
    /// the category's schema.
    pub fn add(&mut self, category: StatsType, coord: &Coordinate, record: Record)
        requires
            old(self).wf(),
        ensures
            final(self).wf(),
            final(self)@ == old(self)@.update(
                category_index(category),
                old(self)@[category_index(category)].push((coord@, record@)),
            ),
    {
        let c = category.index();
        if self.entries[c].len() == 0 {
            let mut schema: Vec<String> = Vec::new();
            let mut j: usize = 0;
            while j < record.fields.len()
                invariant
                    j <= record.fields@.len(),
                    schema@.len() == j,
                    forall|i: int| 0 <= i < j ==> (#[trigger] schema@[i])@ == record.fields@[i].0@,
                decreases record.fields@.len() - j,
            {
                schema.push(record.fields[j].0.clone());
                j = j + 1;
            }
            assert(texts_view(schema@) =~= keys_of(fields_view(record.fields@)));
            self.schemas[c] = schema;
        }
        let ghost before = self.entries@;
        self.entries[c].push((coord.duplicate(), record));
        proof {
            assert(entries_view(self.entries@[c as int]@) =~= entries_view(before[c as int]@).push((coord@, record@)));
            assert(self@ =~= old(self)@.update(c as int, old(self)@[c as int].push((coord@, record@))));
            assert forall|k: int| 0 <= k < CATEGORY_COUNT && (#[trigger] self.entries@[k])@.len() > 0 implies schema_of(
                entries_view(self.entries@[k]@),
            ) == Some(texts_view(self.schemas@[k]@)) by {
                if k == c as int {
                    if before[k]@.len() > 0 {
                        assert(entries_view(self.entries@[k]@)[0] == entries_view(before[k]@)[0]);
                    } else {
                        assert(entries_view(self.entries@[k]@)[0] == (coord@, record@));
                    }
                }
            }
        }
    }

    /// Folds a game's records in, category by category, each record with the
    /// game's coordinate.
    pub fn add_game(&mut self, year: u32, week: u32, game: &GameStats)
        requires
            old(self).wf(),
            game.sections@.len() == CATEGORY_COUNT,
        ensures
            final(self).wf(),
            final(self)@ == Seq::new(
                CATEGORY_COUNT as nat,
                |c: int| old(self)@[c] + tagged(CoordV { year, week, game_id: game.game_id@ }, game@.sections[c]),
            ),
    {
        let coord = Coordinate { year, week, game_id: game.game_id.clone() };
        let ghost start = self@;
        let mut c: usize = 0;
        while c < CATEGORY_COUNT
            invariant
                self.wf(),
                game.sections@.len() == CATEGORY_COUNT,
                coord@ == (CoordV { year, week, game_id: game.game_id@ }),
                start.len() == CATEGORY_COUNT,
                self@.len() == CATEGORY_COUNT,
                c <= CATEGORY_COUNT,
                forall|k: int| 0 <= k < c ==> #[trigger] self@[k] == start[k] + tagged(coord@, game@.sections[k]),
                forall|k: int| c <= k < CATEGORY_COUNT ==> #[trigger] self@[k] == start[k],
            decreases CATEGORY_COUNT - c,
        {
            let category = StatsType::from_index(c);
            let recs = &game.sections[c];
            let ghost at_start = self@;
            let mut j: usize = 0;
            while j < recs.len()
                invariant
                    self.wf(),
                    c < CATEGORY_COUNT,
                    category_index(category) == c as int,
                    recs@ == game.sections@[c as int]@,
                    j <= recs@.len(),
                    self@.len() == CATEGORY_COUNT,
                    self@[c as int] == at_start[c as int] + tagged(coord@, records_view(recs@).take(j as int)),
                    forall|k: int| 0 <= k < CATEGORY_COUNT && k != c ==> #[trigger] self@[k] == at_start[k],
                decreases recs@.len() - j,
            {
                let rec = recs[j].duplicate();
                let ghost mid = self@;
                self.add(category, &coord, rec);
                assert(tagged(coord@, records_view(recs@).take(j + 1)) =~= tagged(coord@, records_view(recs@).take(j as int)).push((coord@, recs@[j as int]@)));
                assert(self@[c as int] =~= at_start[c as int] + tagged(coord@, records_view(recs@).take(j + 1)));
                j = j + 1;
            }
            assert(records_view(recs@).take(recs@.len() as int) =~= game@.sections[c as int]);
            c = c + 1;
        }
        assert(self@ =~= Seq::new(
            CATEGORY_COUNT as nat,
            |k: int| start[k] + tagged(CoordV { year, week, game_id: game.game_id@ }, game@.sections[k]),
        ));
    }
}

impl Aggregator {
    /// The schema of a category: the field names of its first record, once it
    /// has one.
    pub fn schema(&self, category: StatsType) -> (r: Option<Vec<String>>)
        requires
            self.wf(),
        ensures
            match r {
                Some(s) => schema_of(self@[category_index(category)]) == Some(texts_view(s@)),
                None => schema_of(self@[category_index(category)]) is None,
            },
    {
        let c = category.index();
        if self.entries[c].len() == 0 {
            None
        } else {
            let mut copy: Vec<String> = Vec::new();
            let s = &self.schemas[c];
            let mut i: usize = 0;
            while i < s.len()
                invariant
                    i <= s@.len(),
                    copy@.len() == i,
                    forall|j: int| 0 <= j < i ==> (#[trigger] copy@[j])@ == s@[j]@,
                decreases s@.len() - i,
            {
                copy.push(s[i].clone());
                i = i + 1;
            }
            assert(texts_view(copy@) =~= texts_view(s@));
            Some(copy)
        }
    }

    /// A category's output: the header row and one row per record, in the
    /// order in which the records came; none for a category without records.
    pub fn render(&self, category: StatsType) -> (r: Option<(Vec<String>, Vec<Vec<String>>)>)
        requires
            self.wf(),
        ensures
            match r {
                Some((header, rows)) => {
                    let es = self@[category_index(category)];
                    &&& schema_of(es) is Some
                    &&& texts_view(header@) == header_of(schema_of(es)->0)
                    &&& rows_view(rows@) == es.map_values(
                        |e: (CoordV, RecordV)| rendered(schema_of(es)->0, e.0, e.1),
                    )
                },
                None => self@[category_index(category)].len() == 0,
            },
    {
        let c = category.index();
        let es = &self.entries[c];
        if es.len() == 0 {
            return None;
        }
        let schema = &self.schemas[c];
        let ghost sv = texts_view(schema@);
        let ghost ev = entries_view(es@);
        assert(ev == self@[c as int]);
        let header = header_row(schema);
        let mut rows: Vec<Vec<String>> = Vec::new();
        let mut i: usize = 0;
        while i < es.len()
            invariant
                ev == entries_view(es@),
                sv == texts_view(schema@),
                i <= es@.len(),
                rows@.len() == i,
                forall|j: int| 0 <= j < i ==> texts_view((#[trigger] rows@[j])@) == rendered(sv, ev[j].0, ev[j].1),
            decreases es@.len() - i,
        {
            let row = render_row(schema, &es[i].0, &es[i].1);
            assert(ev[i as int] == (es@[i as int].0@, es@[i as int].1@));
            rows.push(row);
            i = i + 1;
        }
        assert(rows_view(rows@) =~= ev.map_values(|e: (CoordV, RecordV)| rendered(sv, e.0, e.1)));
        Some((header, rows))
    }
}

} // verus!
