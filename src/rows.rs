//! Row extraction: the records that a statistics table's body holds.

use vstd::prelude::*;
use crate::markup::{links_ok, NodeDataV, NodeData, NodeV, Tree, ATTR_FIELD, ATTR_IDENTIFIER};
use crate::text::{same_text, trim, trimmed};

verus! {

/// Field name whose cell holds a participant's display name.
pub open spec fn name_field() -> Seq<char> {
    "player"@
}

/// One accepted row: the participant's identifier and display name, and the
/// other fields in the order in which the row first names them.
pub struct Record {
    pub identifier: String,
    pub name: String,
    pub fields: Vec<(String, String)>,
}

pub struct RecordV {
    pub identifier: Seq<char>,
    pub name: Seq<char>,
    pub fields: Seq<(Seq<char>, Seq<char>)>,
}

pub open spec fn fields_view(fs: Seq<(String, String)>) -> Seq<(Seq<char>, Seq<char>)> {
    fs.map_values(|p: (String, String)| (p.0@, p.1@))
}

impl View for Record {
    type V = RecordV;

    open spec fn view(&self) -> RecordV {
        RecordV { identifier: self.identifier@, name: self.name@, fields: fields_view(self.fields@) }
    }
}

pub open spec fn records_view(rs: Seq<Record>) -> Seq<RecordV> {
    rs.map_values(|r: Record| r@)
}

/// Whether a field list names `k`.
pub open spec fn has_key(fs: Seq<(Seq<char>, Seq<char>)>, k: Seq<char>) -> bool {
    exists|i: int| 0 <= i < fs.len() && (#[trigger] fs[i]).0 == k
}

/// The field list with `k` set to `v`: in place where `k` is already named,
/// else appended.
pub open spec fn upsert(fs: Seq<(Seq<char>, Seq<char>)>, k: Seq<char>, v: Seq<char>) -> Seq<(Seq<char>, Seq<char>)> {
    if has_key(fs, k) {
        fs.map_values(|p: (Seq<char>, Seq<char>)| if p.0 == k { (k, v) } else { p })
    } else {
        fs.push((k, v))
    }
}

/// No field name occurs twice.
pub open spec fn keys_unique(fs: Seq<(Seq<char>, Seq<char>)>) -> bool {
    forall|i: int, j: int| 0 <= i < j < fs.len() ==> (#[trigger] fs[i]).0 != (#[trigger] fs[j]).0
}

/// The value of attribute slot `i`, if the element has it.
pub open spec fn attr_at(attrs: Seq<Option<Seq<char>>>, i: int) -> Option<Seq<char>> {
    if 0 <= i < attrs.len() { attrs[i] } else { None }
}

/// The first element at or after position `from` whose tag is `tag`.
pub open spec fn first_tag(t: Seq<NodeV>, from: int, tag: Seq<char>) -> Option<int>
    decreases t.len() - from,
{
    if from < 0 || from >= t.len() {
        None
    } else if t[from].data is Element && t[from].data->tag == tag {
        Some(from)
    } else {
        first_tag(t, from + 1, tag)
    }
}

/// The table's body: the first `tbody` below the table element.
pub open spec fn body_of(t: Seq<NodeV>) -> Option<int> {
    first_tag(t, 1, "tbody"@)
}

/// The text that node `i` holds `depth` levels down, following first children;
/// none where a node on the way has no child or the node reached is not text.
pub open spec fn text_below(t: Seq<NodeV>, i: int, depth: nat) -> Option<Seq<char>>
    decreases depth,
{
    if depth == 0 {
        match t[i].data {
            NodeDataV::Text(s) => Some(s),
            _ => None,
        }
    } else if t[i].children.len() > 0 {
        text_below(t, t[i].children[0] as int, (depth - 1) as nat)
    } else {
        None
    }
}

/// What a row's cells have given so far.
pub struct RowAcc {
    pub identifier: Option<Seq<char>>,
    pub name: Option<Seq<char>>,
    pub fields: Seq<(Seq<char>, Seq<char>)>,
    pub rejected: bool,
}

pub open spec fn row_start() -> RowAcc {
    RowAcc { identifier: None, name: None, fields: seq![], rejected: false }
}

/// One child of a row taken into account. Children that are not elements are
/// skipped; an element without a field name rejects the row; the name field's
/// text is two levels down, every other field's text one level down.
pub open spec fn cell_step(t: Seq<NodeV>, acc: RowAcc, c: int) -> RowAcc {
    if acc.rejected {
        acc
    } else {
        match t[c].data {
            NodeDataV::Element { tag, attrs } => {
                let acc1 = match attr_at(attrs, ATTR_IDENTIFIER as int) {
                    Some(id) => RowAcc { identifier: Some(id), ..acc },
                    None => acc,
                };
                match attr_at(attrs, ATTR_FIELD as int) {
                    None => RowAcc { rejected: true, ..acc1 },
                    Some(f) => {
                        let depth: nat = if f == name_field() { 2 } else { 1 };
                        match text_below(t, c, depth) {
                            Some(v) => {
                                if trimmed(f) == name_field() {
                                    RowAcc { name: Some(trimmed(v)), ..acc1 }
                                } else {
                                    RowAcc { fields: upsert(acc1.fields, trimmed(f), trimmed(v)), ..acc1 }
                                }
                            },
                            None => acc1,
                        }
                    },
                }
            },
            _ => acc,
        }
    }
}

pub open spec fn row_acc(t: Seq<NodeV>, cells: Seq<usize>) -> RowAcc
    decreases cells.len(),
{
    if cells.len() == 0 {
        row_start()
    } else {
        cell_step(t, row_acc(t, cells.drop_last()), cells.last() as int)
    }
}

/// The record of row `r`, when the row is not rejected and has both an
/// identifier and a name.
pub open spec fn row_record(t: Seq<NodeV>, r: int) -> Option<RecordV> {
    let acc = row_acc(t, t[r].children);
    if !acc.rejected && acc.identifier is Some && acc.name is Some {
        Some(RecordV { identifier: acc.identifier->0, name: acc.name->0, fields: acc.fields })
    } else {
        None
    }
}

/// The records of the given rows, in row order.
pub open spec fn rows_records(t: Seq<NodeV>, rows: Seq<usize>) -> Seq<RecordV>
    decreases rows.len(),
{
    if rows.len() == 0 {
        seq![]
    } else {
        let before = rows_records(t, rows.drop_last());
        match row_record(t, rows.last() as int) {
            Some(rec) => before.push(rec),
            None => before,
        }
    }
}

proof fn lemma_row_acc_take(t: Seq<NodeV>, cells: Seq<usize>, k: int)
    requires
        0 <= k < cells.len(),
    ensures
        row_acc(t, cells.take(k + 1)) == cell_step(t, row_acc(t, cells.take(k)), cells[k] as int),
{
    assert(cells.take(k + 1).drop_last() =~= cells.take(k));
}

proof fn lemma_rejection_sticks(t: Seq<NodeV>, cells: Seq<usize>, j: int, k: int)
    requires
        0 <= j < k <= cells.len(),
        row_acc(t, cells.take(j + 1)).rejected,
    ensures
        row_acc(t, cells.take(k)).rejected,
    decreases k - j,
{
    if k > j + 1 {
        lemma_rejection_sticks(t, cells, j, k - 1);
        lemma_row_acc_take(t, cells, k - 1);
    }
}

proof fn lemma_upsert_keeps_keys_unique(fs: Seq<(Seq<char>, Seq<char>)>, k: Seq<char>, v: Seq<char>)
    requires
        keys_unique(fs),
    ensures
        keys_unique(upsert(fs, k, v)),
{
    let u = upsert(fs, k, v);
    if has_key(fs, k) {
        assert forall|i: int, j: int| 0 <= i < j < u.len() implies (#[trigger] u[i]).0 != (#[trigger] u[j]).0 by {
            assert(u[i].0 == fs[i].0);
            assert(u[j].0 == fs[j].0);
        }
    } else {
        assert forall|i: int, j: int| 0 <= i < j < u.len() implies (#[trigger] u[i]).0 != (#[trigger] u[j]).0 by {
            if j == fs.len() {
                assert(fs[i].0 != k);
            }
        }
    }
}

proof fn lemma_row_acc_keys_unique(t: Seq<NodeV>, cells: Seq<usize>)
    ensures
        keys_unique(row_acc(t, cells).fields),
    decreases cells.len(),
{
    if cells.len() > 0 {
        lemma_row_acc_keys_unique(t, cells.drop_last());
        let acc = row_acc(t, cells.drop_last());
        let c = cells.last() as int;
        if !acc.rejected {
            match t[c].data {
                NodeDataV::Element { tag, attrs } => {
                    match attr_at(attrs, ATTR_FIELD as int) {
                        Some(f) => {
                            let depth: nat = if f == name_field() { 2 } else { 1 };
                            match text_below(t, c, depth) {
                                Some(v) => {
                                    lemma_upsert_keeps_keys_unique(acc.fields, trimmed(f), trimmed(v));
                                },
                                None => {},
                            }
                        },
                        None => {},
                    }
                },
                _ => {},
            }
        }
    }
}

/// No field name occurs twice in a record that a row yields.
pub proof fn lemma_record_keys_unique(t: Seq<NodeV>, r: int)
    requires
        row_record(t, r) is Some,
    ensures
        keys_unique(row_record(t, r)->0.fields),
{
    lemma_row_acc_keys_unique(t, t[r].children);
}

/// A row with an element child that carries no field name is a header or
/// separator row: it yields no record, whatever its other cells hold.
pub proof fn lemma_row_without_field_name_rejected(t: Seq<NodeV>, r: int, j: int)
    requires
        0 <= j < t[r].children.len(),
        t[t[r].children[j] as int].data is Element,
        attr_at(t[t[r].children[j] as int].data->attrs, ATTR_FIELD as int) is None,
    ensures
        row_record(t, r) is None,
{
    let cells = t[r].children;
    lemma_row_acc_take(t, cells, j);
    lemma_rejection_sticks(t, cells, j, cells.len() as int);
    assert(cells.take(cells.len() as int) =~= cells);
}

/// Rows are never merged: two accepted rows with the same content give two
/// records, one after the other.
pub proof fn lemma_rows_not_deduplicated(t: Seq<NodeV>, rows: Seq<usize>, a: usize, b: usize)
    requires
        row_record(t, a as int) is Some,
        row_record(t, b as int) == row_record(t, a as int),
    ensures
        rows_records(t, rows.push(a).push(b)) == rows_records(t, rows).push(
            row_record(t, a as int)->0,
        ).push(row_record(t, a as int)->0),
{
    let rec = row_record(t, a as int)->0;
    assert(rows.push(a).drop_last() =~= rows);
    assert(rows.push(a).last() == a);
    assert(rows_records(t, rows.push(a)) == rows_records(t, rows).push(rec));
    assert(rows.push(a).push(b).drop_last() =~= rows.push(a));
    assert(rows.push(a).push(b).last() == b);
}

/// The records of a table: those of its body's rows, none without a body.
pub open spec fn table_records(t: Seq<NodeV>) -> Seq<RecordV> {
    match body_of(t) {
        Some(b) => rows_records(t, t[b].children),
        None => seq![],
    }
}

fn find_body(t: &Tree) -> (r: Option<usize>)
    ensures
        match r {
            Some(b) => body_of(t@) == Some(b as int) && (b as int) < t@.len(),
            None => body_of(t@) is None,
        },
{
    let mut i: usize = 1;
    while i < t.nodes.len()
        invariant
            1 <= i,
            body_of(t@) == first_tag(t@, i as int, "tbody"@),
        decreases t.nodes@.len() - i,
    {
        assert(t@[i as int] == t.nodes@[i as int]@);
        match &t.nodes[i].data {
            NodeData::Element { tag, attrs: _ } => {
                if same_text(tag.as_str(), "tbody") {
                    return Some(i);
                }
            },
            _ => {},
        }
        i = i + 1;
    }
    None
}

pub(crate) fn text_at_depth(t: &Tree, i: usize, depth: usize) -> (r: Option<String>)
    requires
        links_ok(t@, seq![]),
        i < t@.len(),
    ensures
        match r {
            Some(s) => text_below(t@, i as int, depth as nat) == Some(s@),
            None => text_below(t@, i as int, depth as nat) is None,
        },
{
    let mut cur: usize = i;
    let mut d: usize = depth;
    while d > 0
        invariant
            links_ok(t@, seq![]),
            cur < t@.len(),
            text_below(t@, i as int, depth as nat) == text_below(t@, cur as int, d as nat),
        decreases d,
    {
        assert(t@[cur as int] == t.nodes@[cur as int]@);
        if t.nodes[cur].children.len() == 0 {
            return None;
        }
        cur = t.nodes[cur].children[0];
        d = d - 1;
    }
    assert(t@[cur as int] == t.nodes@[cur as int]@);
    match &t.nodes[cur].data {
        NodeData::Text(s) => Some(s.clone()),
        _ => None,
    }
}

pub(crate) fn attr_value(attrs: &Vec<Option<String>>, i: usize) -> (r: Option<String>)
    ensures
        crate::markup::opt_text(r) == attr_at(attrs@.map_values(|a: Option<String>| crate::markup::opt_text(a)), i as int),
{
    if i < attrs.len() {
        match &attrs[i] {
            Some(s) => Some(s.clone()),
            None => None,
        }
    } else {
        None
    }
}

impl Record {
    /// A copy of the record.
    pub fn duplicate(&self) -> (r: Record)
        ensures
            r@ == self@,
    {
        let mut fields: Vec<(String, String)> = Vec::new();
        let mut i: usize = 0;
        while i < self.fields.len()
            invariant
                i <= self.fields@.len(),
                fields@.len() == i,
                forall|j: int| 0 <= j < i ==> ((#[trigger] fields@[j]).0@, fields@[j].1@) == (self.fields@[j].0@, self.fields@[j].1@),
            decreases self.fields@.len() - i,
        {
            fields.push((self.fields[i].0.clone(), self.fields[i].1.clone()));
            i = i + 1;
        }
        assert(fields_view(fields@) =~= fields_view(self.fields@));
        Record { identifier: self.identifier.clone(), name: self.name.clone(), fields }
    }
}

/// Sets field `k` to `v`: in place where the list already names `k`, else at the end.
pub fn upsert_field(fields: &mut Vec<(String, String)>, k: String, v: String)
    ensures
        fields_view(final(fields)@) == upsert(fields_view(old(fields)@), k@, v@),
{
    let ghost old_view = fields_view(fields@);
    let mut found = false;
    let mut i: usize = 0;
    assert(forall|j: int| 0 <= j < fields@.len() ==> ((#[trigger] fields@[j]).0@, fields@[j].1@) == old_view[j]);
    while i < fields.len()
        invariant
            i <= fields@.len(),
            fields@.len() == old_view.len(),
            found == (exists|j: int| 0 <= j < i && (#[trigger] old_view[j]).0 == k@),
            forall|j: int| 0 <= j < i ==> ((#[trigger] fields@[j]).0@, fields@[j].1@) == (if old_view[j].0 == k@ { (k@, v@) } else { old_view[j] }),
            forall|j: int| i <= j < fields@.len() ==> ((#[trigger] fields@[j]).0@, fields@[j].1@) == old_view[j],
        decreases fields@.len() - i,
    {
        if fields[i].0 == k {
            fields[i] = (k.clone(), v.clone());
            found = true;
        }
        i = i + 1;
    }
    assert(forall|j: int| 0 <= j < fields@.len() ==> (#[trigger] fields_view(fields@)[j]) == (fields@[j].0@, fields@[j].1@));
    if found {
        assert(has_key(old_view, k@));
        assert(fields_view(fields@) =~= upsert(old_view, k@, v@));
    } else {
        assert(!has_key(old_view, k@));
        assert(fields_view(fields@) =~= old_view);
        fields.push((k, v));
        assert(fields_view(fields@) =~= upsert(old_view, k@, v@));
    }
}

/// The record of row `r` of a table, as `row_record` describes it.
fn extract_row(t: &Tree, r: usize) -> (out: Option<Record>)
    requires
        links_ok(t@, seq![]),
        r < t@.len(),
    ensures
        match out {
            Some(rec) => row_record(t@, r as int) == Some(rec@),
            None => row_record(t@, r as int) is None,
        },
{
    let cells = &t.nodes[r].children;
    assert(t@[r as int] == t.nodes@[r as int]@);
    let ghost cs = t@[r as int].children;
    let mut identifier: Option<String> = None;
    let mut name: Option<String> = None;
    let mut fields: Vec<(String, String)> = Vec::new();
    let mut rejected = false;
    let mut j: usize = 0;
    assert(cs.take(0) =~= seq![]);
    assert(fields_view(fields@) =~= seq![]);
    while j < cells.len()
        invariant
            links_ok(t@, seq![]),
            r < t@.len(),
            cells@ == cs,
            cs == t@[r as int].children,
            j <= cs.len(),
            row_acc(t@, cs.take(j as int)) == (RowAcc {
                identifier: crate::markup::opt_text(identifier),
                name: crate::markup::opt_text(name),
                fields: fields_view(fields@),
                rejected,
            }),
        decreases cs.len() - j,
    {
        let c = cells[j];
        assert(cs.take(j + 1).drop_last() =~= cs.take(j as int));
        assert(c < t@.len()) by {
            assert(t@[r as int].children[j as int] == c);
        }
        assert(t@[c as int] == t.nodes@[c as int]@);
        if !rejected {
            match &t.nodes[c].data {
                NodeData::Element { tag: _, attrs } => {
                    match attr_value(attrs, ATTR_IDENTIFIER) {
                        Some(id) => {
                            identifier = Some(id);
                        },
                        None => {},
                    }
                    match attr_value(attrs, ATTR_FIELD) {
                        None => {
                            rejected = true;
                        },
                        Some(f) => {
                            let depth: usize = if same_text(f.as_str(), "player") { 2 } else { 1 };
                            match text_at_depth(t, c, depth) {
                                Some(v) => {
                                    let key = trim(f.as_str());
                                    let val = trim(v.as_str());
                                    if same_text(key.as_str(), "player") {
                                        name = Some(val);
                                    } else {
                                        upsert_field(&mut fields, key, val);
                                    }
                                },
                                None => {},
                            }
                        },
                    }
                },
                _ => {},
            }
        }
        j = j + 1;
    }
    assert(cs.take(cs.len() as int) =~= cs);
    if !rejected {
        match (identifier, name) {
            (Some(id), Some(nm)) => Some(Record { identifier: id, name: nm, fields }),
            _ => None,
        }
    } else {
        None
    }
}

/// The records of a table's body rows, in row order: rows rejected for a cell
/// without a field name, or lacking the identifier or the name, give none.
pub fn extract_rows(t: &Tree) -> (r: Vec<Record>)
    requires
        links_ok(t@, seq![]),
    ensures
        records_view(r@) == table_records(t@),
{
    let mut out: Vec<Record> = Vec::new();
    match find_body(t) {
        None => {
            assert(records_view(out@) =~= seq![]);
            out
        },
        Some(b) => {
            let rows = &t.nodes[b].children;
            assert(t@[b as int] == t.nodes@[b as int]@);
            let ghost rs = t@[b as int].children;
            let mut i: usize = 0;
            assert(rs.take(0) =~= seq![]);
            assert(records_view(out@) =~= seq![]);
            while i < rows.len()
                invariant
                    links_ok(t@, seq![]),
                    b < t@.len(),
                    rows@ == rs,
                    rs == t@[b as int].children,
                    i <= rs.len(),
                    records_view(out@) == rows_records(t@, rs.take(i as int)),
                decreases rs.len() - i,
            {
                let row = rows[i];
                assert(rs.take(i + 1).drop_last() =~= rs.take(i as int));
                assert(row < t@.len()) by {
                    assert(t@[b as int].children[i as int] == row);
                }
                match extract_row(t, row) {
                    Some(rec) => {
                        out.push(rec);
                        assert(records_view(out@) =~= rows_records(t@, rs.take(i + 1)));
                    },
                    None => {
                        assert(records_view(out@) =~= rows_records(t@, rs.take(i + 1)));
                    },
                }
                i = i + 1;
            }
            assert(rs.take(rs.len() as int) =~= rs);
            out
        },
    }
}

} // verus!
