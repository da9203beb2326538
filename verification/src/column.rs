//! The column vocabulary and the typed column buffers.
//!
//! A schema pairs each column name with one of a closed vocabulary of
//! semantic types; every column buffer holds one nullable decoded value
//! per row, in row order.

use vstd::prelude::*;
use vstd::string::StringExecFns;
use crate::json::{Json, SpecJson, lemma_model_elems};
use crate::parse::{
    opt_model, spec_parse_boolean, spec_parse_number, spec_parse_text,
    spec_parse_fixed_timestamp, spec_parse_floating_timestamp, spec_parse_url, spec_parse_photo,
    spec_parse_document, spec_parse_point, spec_parse_line, spec_parse_polygon,
    spec_parse_multipoint, spec_parse_multiline, spec_parse_multipolygon, spec_parse_location,
    parse_boolean, parse_number, parse_text, parse_fixed_timestamp, parse_floating_timestamp,
    parse_url, parse_photo, parse_document, parse_point, parse_line, parse_polygon,
    parse_multipoint, parse_multiline, parse_multipolygon, parse_location,
};

verus! {

/// The closed vocabulary of semantic column types. `row_identifier` and
/// `row_version` are aliases of `text` and resolve to `Text`.
#[derive(Clone, Copy, PartialEq, Eq, Structural, Debug)]
pub enum ColumnType {
    Boolean,
    Number,
    FixedTimestamp,
    FloatingTimestamp,
    Text,
    Url,
    Photo,
    Document,
    Point,
    Line,
    Polygon,
    MultiPoint,
    MultiLine,
    MultiPolygon,
    Location,
}

/// The column type a type tag names, `None` for a tag outside the
/// vocabulary.
pub open spec fn spec_column_type_of(tag: Seq<char>) -> Option<ColumnType> {
    if tag == "boolean"@ {
        Some(ColumnType::Boolean)
    } else if tag == "number"@ {
        Some(ColumnType::Number)
    } else if tag == "fixed_timestamp"@ {
        Some(ColumnType::FixedTimestamp)
    } else if tag == "floating_timestamp"@ {
        Some(ColumnType::FloatingTimestamp)
    } else if tag == "text"@ || tag == "row_identifier"@ || tag == "row_version"@ {
        Some(ColumnType::Text)
    } else if tag == "url"@ {
        Some(ColumnType::Url)
    } else if tag == "photo"@ {
        Some(ColumnType::Photo)
    } else if tag == "document"@ {
        Some(ColumnType::Document)
    } else if tag == "point"@ {
        Some(ColumnType::Point)
    } else if tag == "line"@ {
        Some(ColumnType::Line)
    } else if tag == "polygon"@ {
        Some(ColumnType::Polygon)
    } else if tag == "multipoint"@ {
        Some(ColumnType::MultiPoint)
    } else if tag == "multiline"@ {
        Some(ColumnType::MultiLine)
    } else if tag == "multipolygon"@ {
        Some(ColumnType::MultiPolygon)
    } else if tag == "location"@ {
        Some(ColumnType::Location)
    } else {
        None
    }
}

pub fn column_type_of(tag: &str) -> (r: Option<ColumnType>)
    ensures
        r == spec_column_type_of(tag@),
{
    let t: String = tag.to_owned();
    if t == "boolean".to_owned() {
        Some(ColumnType::Boolean)
    } else if t == "number".to_owned() {
        Some(ColumnType::Number)
    } else if t == "fixed_timestamp".to_owned() {
        Some(ColumnType::FixedTimestamp)
    } else if t == "floating_timestamp".to_owned() {
        Some(ColumnType::FloatingTimestamp)
    } else if t == "text".to_owned() || t == "row_identifier".to_owned() || t
        == "row_version".to_owned() {
        Some(ColumnType::Text)
    } else if t == "url".to_owned() {
        Some(ColumnType::Url)
    } else if t == "photo".to_owned() {
        Some(ColumnType::Photo)
    } else if t == "document".to_owned() {
        Some(ColumnType::Document)
    } else if t == "point".to_owned() {
        Some(ColumnType::Point)
    } else if t == "line".to_owned() {
        Some(ColumnType::Line)
    } else if t == "polygon".to_owned() {
        Some(ColumnType::Polygon)
    } else if t == "multipoint".to_owned() {
        Some(ColumnType::MultiPoint)
    } else if t == "multiline".to_owned() {
        Some(ColumnType::MultiLine)
    } else if t == "multipolygon".to_owned() {
        Some(ColumnType::MultiPolygon)
    } else if t == "location".to_owned() {
        Some(ColumnType::Location)
    } else {
        None
    }
}

/// One typed column buffer. Doubles are carried as IEEE 754 bit
/// patterns, timestamps as whole epoch seconds, and a coordinate as a
/// (longitude, latitude) pair of bit patterns.
#[derive(PartialEq, Debug)]
pub enum Column {
    Boolean(Vec<Option<bool>>),
    Number(Vec<Option<u64>>),
    FixedTimestamp(Vec<Option<i64>>),
    FloatingTimestamp(Vec<Option<i64>>),
    Text(Vec<Option<String>>),
    Url((Vec<Option<String>>, Vec<Option<String>>)),
    Photo(Vec<Option<String>>),
    Document(Vec<Option<String>>),
    Point(Vec<Option<(u64, u64)>>),
    Line(Vec<Option<Vec<(u64, u64)>>>),
    Polygon(Vec<Option<Vec<Vec<(u64, u64)>>>>),
    MultiPoint(Vec<Option<Vec<(u64, u64)>>>),
    MultiLine(Vec<Option<Vec<Vec<(u64, u64)>>>>),
    MultiPolygon(Vec<Option<Vec<Vec<Vec<(u64, u64)>>>>>),
    Location(
        (
            Vec<Option<(u64, u64)>>,
            Vec<Option<String>>,
            Vec<Option<String>>,
            Vec<Option<String>>,
            Vec<Option<String>>,
        ),
    ),
}

/// Mathematical model of one column buffer.
pub enum ColumnModel {
    Boolean(Seq<Option<bool>>),
    Number(Seq<Option<u64>>),
    FixedTimestamp(Seq<Option<i64>>),
    FloatingTimestamp(Seq<Option<i64>>),
    Text(Seq<Option<Seq<char>>>),
    Url(Seq<Option<Seq<char>>>, Seq<Option<Seq<char>>>),
    Photo(Seq<Option<Seq<char>>>),
    Document(Seq<Option<Seq<char>>>),
    Point(Seq<Option<(u64, u64)>>),
    Line(Seq<Option<Seq<(u64, u64)>>>),
    Polygon(Seq<Option<Seq<Seq<(u64, u64)>>>>),
    MultiPoint(Seq<Option<Seq<(u64, u64)>>>),
    MultiLine(Seq<Option<Seq<Seq<(u64, u64)>>>>),
    MultiPolygon(Seq<Option<Seq<Seq<Seq<(u64, u64)>>>>>),
    Location(
        Seq<Option<(u64, u64)>>,
        Seq<Option<Seq<char>>>,
        Seq<Option<Seq<char>>>,
        Seq<Option<Seq<char>>>,
        Seq<Option<Seq<char>>>,
    ),
}

impl Column {
    /// The model of this buffer: its contents over sequences.
    pub open spec fn model(self) -> ColumnModel {
        match self {
            Column::Boolean(v) => ColumnModel::Boolean(v@),
            Column::Number(v) => ColumnModel::Number(v@),
            Column::FixedTimestamp(v) => ColumnModel::FixedTimestamp(v@),
            Column::FloatingTimestamp(v) => ColumnModel::FloatingTimestamp(v@),
            Column::Text(v) => ColumnModel::Text(v.deep_view()),
            Column::Url(t) => ColumnModel::Url(t.0.deep_view(), t.1.deep_view()),
            Column::Photo(v) => ColumnModel::Photo(v.deep_view()),
            Column::Document(v) => ColumnModel::Document(v.deep_view()),
            Column::Point(v) => ColumnModel::Point(v@),
            Column::Line(v) => ColumnModel::Line(v.deep_view()),
            Column::Polygon(v) => ColumnModel::Polygon(v.deep_view()),
            Column::MultiPoint(v) => ColumnModel::MultiPoint(v.deep_view()),
            Column::MultiLine(v) => ColumnModel::MultiLine(v.deep_view()),
            Column::MultiPolygon(v) => ColumnModel::MultiPolygon(v.deep_view()),
            Column::Location(t) => ColumnModel::Location(
                t.0@,
                t.1.deep_view(),
                t.2.deep_view(),
                t.3.deep_view(),
                t.4.deep_view(),
            ),
        }
    }
}

impl ColumnModel {
    /// True when every buffer this column holds has length `n`.
    pub open spec fn has_len(self, n: nat) -> bool {
        match self {
            ColumnModel::Boolean(s) => s.len() == n,
            ColumnModel::Number(s) => s.len() == n,
            ColumnModel::FixedTimestamp(s) => s.len() == n,
            ColumnModel::FloatingTimestamp(s) => s.len() == n,
            ColumnModel::Text(s) => s.len() == n,
            ColumnModel::Url(u, d) => u.len() == n && d.len() == n,
            ColumnModel::Photo(s) => s.len() == n,
            ColumnModel::Document(s) => s.len() == n,
            ColumnModel::Point(s) => s.len() == n,
            ColumnModel::Line(s) => s.len() == n,
            ColumnModel::Polygon(s) => s.len() == n,
            ColumnModel::MultiPoint(s) => s.len() == n,
            ColumnModel::MultiLine(s) => s.len() == n,
            ColumnModel::MultiPolygon(s) => s.len() == n,
            ColumnModel::Location(c, a, ci, st, z) => c.len() == n && a.len() == n && ci.len() == n
                && st.len() == n && z.len() == n,
        }
    }
}

/// The row's field for a column: field `name` of row `k`.
pub open spec fn spec_cell(rows: Seq<SpecJson>, k: int, name: Seq<char>) -> Option<SpecJson> {
    rows[k].get(name)
}

/// The full contents of one column: for each row, the decoded value of
/// the row's field under the column's type.
pub open spec fn spec_column(
    ty: ColumnType,
    rows: Seq<SpecJson>,
    name: Seq<char>,
    base: Seq<char>,
    zone: Seq<char>,
) -> ColumnModel {
    match ty {
        ColumnType::Boolean => ColumnModel::Boolean(
            Seq::new(rows.len(), |k: int| spec_parse_boolean(spec_cell(rows, k, name))),
        ),
        ColumnType::Number => ColumnModel::Number(
            Seq::new(rows.len(), |k: int| spec_parse_number(spec_cell(rows, k, name))),
        ),
        ColumnType::FixedTimestamp => ColumnModel::FixedTimestamp(
            Seq::new(rows.len(), |k: int| spec_parse_fixed_timestamp(spec_cell(rows, k, name))),
        ),
        ColumnType::FloatingTimestamp => ColumnModel::FloatingTimestamp(
            Seq::new(
                rows.len(),
                |k: int| spec_parse_floating_timestamp(spec_cell(rows, k, name), zone),
            ),
        ),
        ColumnType::Text => ColumnModel::Text(
            Seq::new(rows.len(), |k: int| spec_parse_text(spec_cell(rows, k, name))),
        ),
        ColumnType::Url => ColumnModel::Url(
            Seq::new(rows.len(), |k: int| spec_parse_url(spec_cell(rows, k, name)).0),
            Seq::new(rows.len(), |k: int| spec_parse_url(spec_cell(rows, k, name)).1),
        ),
        ColumnType::Photo => ColumnModel::Photo(
            Seq::new(rows.len(), |k: int| spec_parse_photo(spec_cell(rows, k, name), base)),
        ),
        ColumnType::Document => ColumnModel::Document(
            Seq::new(rows.len(), |k: int| spec_parse_document(spec_cell(rows, k, name), base)),
        ),
        ColumnType::Point => ColumnModel::Point(
            Seq::new(rows.len(), |k: int| spec_parse_point(spec_cell(rows, k, name))),
        ),
        ColumnType::Line => ColumnModel::Line(
            Seq::new(rows.len(), |k: int| spec_parse_line(spec_cell(rows, k, name))),
        ),
        ColumnType::Polygon => ColumnModel::Polygon(
            Seq::new(rows.len(), |k: int| spec_parse_polygon(spec_cell(rows, k, name))),
        ),
        ColumnType::MultiPoint => ColumnModel::MultiPoint(
            Seq::new(rows.len(), |k: int| spec_parse_multipoint(spec_cell(rows, k, name))),
        ),
        ColumnType::MultiLine => ColumnModel::MultiLine(
            Seq::new(rows.len(), |k: int| spec_parse_multiline(spec_cell(rows, k, name))),
        ),
        ColumnType::MultiPolygon => ColumnModel::MultiPolygon(
            Seq::new(rows.len(), |k: int| spec_parse_multipolygon(spec_cell(rows, k, name))),
        ),
        ColumnType::Location => ColumnModel::Location(
            Seq::new(rows.len(), |k: int| spec_parse_location(spec_cell(rows, k, name)).0),
            Seq::new(rows.len(), |k: int| spec_parse_location(spec_cell(rows, k, name)).1),
            Seq::new(rows.len(), |k: int| spec_parse_location(spec_cell(rows, k, name)).2),
            Seq::new(rows.len(), |k: int| spec_parse_location(spec_cell(rows, k, name)).3),
            Seq::new(rows.len(), |k: int| spec_parse_location(spec_cell(rows, k, name)).4),
        ),
    }
}

/// Whatever its type, a column decoded over `rows` holds one entry per
/// row in every buffer it carries.
pub proof fn lemma_spec_column_len(
    ty: ColumnType,
    rows: Seq<SpecJson>,
    name: Seq<char>,
    base: Seq<char>,
    zone: Seq<char>,
)
    ensures
        spec_column(ty, rows, name, base, zone).has_len(rows.len()),
{
}

/// The row's field for a column, borrowed from the row vector.
fn cell_of<'a>(rows: &'a Vec<Json>, k: usize, name: &str) -> (r: Option<&'a Json>)
    requires
        k < rows@.len(),
    ensures
        opt_model(r) == spec_cell(Json::model_elems(rows@), k as int, name@),
{
    proof {
        lemma_model_elems(rows@);
    }
    rows[k].get_field(name)
}

fn col_boolean(rows: &Vec<Json>, name: &str) -> (out: Vec<Option<bool>>)
    ensures
        out@ == Seq::new(
            rows@.len(),
            |k: int| spec_parse_boolean(spec_cell(Json::model_elems(rows@), k, name@)),
        ),
{
    let ghost target = Seq::new(
        rows@.len(),
        |k: int| spec_parse_boolean(spec_cell(Json::model_elems(rows@), k, name@)),
    );
    let mut out: Vec<Option<bool>> = Vec::with_capacity(rows.len());
    let mut r: usize = 0;
    while r < rows.len()
        invariant
            r <= rows@.len(),
            target == Seq::new(
                rows@.len(),
                |k: int| spec_parse_boolean(spec_cell(Json::model_elems(rows@), k, name@)),
            ),
            out@.len() == r as int,
            forall|k: int| 0 <= k < r as int ==> out@[k] == target[k],
        decreases rows@.len() - r,
    {
        out.push(parse_boolean(cell_of(rows, r, name)));
        r += 1;
    }
    proof {
        assert(out@ =~= target);
    }
    out
}

fn col_number(rows: &Vec<Json>, name: &str) -> (out: Vec<Option<u64>>)
    ensures
        out@ == Seq::new(
            rows@.len(),
            |k: int| spec_parse_number(spec_cell(Json::model_elems(rows@), k, name@)),
        ),
{
    let ghost target = Seq::new(
        rows@.len(),
        |k: int| spec_parse_number(spec_cell(Json::model_elems(rows@), k, name@)),
    );
    let mut out: Vec<Option<u64>> = Vec::with_capacity(rows.len());
    let mut r: usize = 0;
    while r < rows.len()
        invariant
            r <= rows@.len(),
            target == Seq::new(
                rows@.len(),
                |k: int| spec_parse_number(spec_cell(Json::model_elems(rows@), k, name@)),
            ),
            out@.len() == r as int,
            forall|k: int| 0 <= k < r as int ==> out@[k] == target[k],
        decreases rows@.len() - r,
    {
        out.push(parse_number(cell_of(rows, r, name)));
        r += 1;
    }
    proof {
        assert(out@ =~= target);
    }
    out
}

fn col_fixed_timestamp(rows: &Vec<Json>, name: &str) -> (out: Vec<Option<i64>>)
    ensures
        out@ == Seq::new(
            rows@.len(),
            |k: int| spec_parse_fixed_timestamp(spec_cell(Json::model_elems(rows@), k, name@)),
        ),
{
    let ghost target = Seq::new(
        rows@.len(),
        |k: int| spec_parse_fixed_timestamp(spec_cell(Json::model_elems(rows@), k, name@)),
    );
    let mut out: Vec<Option<i64>> = Vec::with_capacity(rows.len());
    let mut r: usize = 0;
    while r < rows.len()
        invariant
            r <= rows@.len(),
            target == Seq::new(
                rows@.len(),
                |k: int| spec_parse_fixed_timestamp(spec_cell(Json::model_elems(rows@), k, name@)),
            ),
            out@.len() == r as int,
            forall|k: int| 0 <= k < r as int ==> out@[k] == target[k],
        decreases rows@.len() - r,
    {
        out.push(parse_fixed_timestamp(cell_of(rows, r, name)));
        r += 1;
    }
    proof {
        assert(out@ =~= target);
    }
    out
}

fn col_floating_timestamp(rows: &Vec<Json>, name: &str, zone: &str) -> (out: Vec<Option<i64>>)
    ensures
        out@ == Seq::new(
            rows@.len(),
            |k: int|
                spec_parse_floating_timestamp(
                    spec_cell(Json::model_elems(rows@), k, name@),
                    zone@,
                ),
        ),
{
    let ghost target = Seq::new(
        rows@.len(),
        |k: int|
            spec_parse_floating_timestamp(spec_cell(Json::model_elems(rows@), k, name@), zone@),
    );
    let mut out: Vec<Option<i64>> = Vec::with_capacity(rows.len());
    let mut r: usize = 0;
    while r < rows.len()
        invariant
            r <= rows@.len(),
            target == Seq::new(
                rows@.len(),
                |k: int|
                    spec_parse_floating_timestamp(
                        spec_cell(Json::model_elems(rows@), k, name@),
                        zone@,
                    ),
            ),
            out@.len() == r as int,
            forall|k: int| 0 <= k < r as int ==> out@[k] == target[k],
        decreases rows@.len() - r,
    {
        out.push(parse_floating_timestamp(cell_of(rows, r, name), zone));
        r += 1;
    }
    proof {
        assert(out@ =~= target);
    }
    out
}

fn col_text(rows: &Vec<Json>, name: &str) -> (out: Vec<Option<String>>)
    ensures
        out.deep_view() == Seq::new(
            rows@.len(),
            |k: int| spec_parse_text(spec_cell(Json::model_elems(rows@), k, name@)),
        ),
{
    let ghost target = Seq::new(
        rows@.len(),
        |k: int| spec_parse_text(spec_cell(Json::model_elems(rows@), k, name@)),
    );
    let mut out: Vec<Option<String>> = Vec::with_capacity(rows.len());
    let mut r: usize = 0;
    while r < rows.len()
        invariant
            r <= rows@.len(),
            target == Seq::new(
                rows@.len(),
                |k: int| spec_parse_text(spec_cell(Json::model_elems(rows@), k, name@)),
            ),
            out@.len() == r as int,
            forall|k: int| 0 <= k < r as int ==> (#[trigger] out@[k]).deep_view() == target[k],
        decreases rows@.len() - r,
    {
        out.push(parse_text(cell_of(rows, r, name)));
        r += 1;
    }
    proof {
        assert(out.deep_view() =~= target);
    }
    out
}

fn col_photo(rows: &Vec<Json>, name: &str, base: &str) -> (out: Vec<Option<String>>)
    ensures
        out.deep_view() == Seq::new(
            rows@.len(),
            |k: int| spec_parse_photo(spec_cell(Json::model_elems(rows@), k, name@), base@),
        ),
{
    let ghost target = Seq::new(
        rows@.len(),
        |k: int| spec_parse_photo(spec_cell(Json::model_elems(rows@), k, name@), base@),
    );
    let mut out: Vec<Option<String>> = Vec::with_capacity(rows.len());
    let mut r: usize = 0;
    while r < rows.len()
        invariant
            r <= rows@.len(),
            target == Seq::new(
                rows@.len(),
                |k: int| spec_parse_photo(spec_cell(Json::model_elems(rows@), k, name@), base@),
            ),
            out@.len() == r as int,
            forall|k: int| 0 <= k < r as int ==> (#[trigger] out@[k]).deep_view() == target[k],
        decreases rows@.len() - r,
    {
        out.push(parse_photo(cell_of(rows, r, name), base));
        r += 1;
    }
    proof {
        assert(out.deep_view() =~= target);
    }
    out
}

fn col_document(rows: &Vec<Json>, name: &str, base: &str) -> (out: Vec<Option<String>>)
    ensures
        out.deep_view() == Seq::new(
            rows@.len(),
            |k: int| spec_parse_document(spec_cell(Json::model_elems(rows@), k, name@), base@),
        ),
{
    let ghost target = Seq::new(
        rows@.len(),
        |k: int| spec_parse_document(spec_cell(Json::model_elems(rows@), k, name@), base@),
    );
    let mut out: Vec<Option<String>> = Vec::with_capacity(rows.len());
    let mut r: usize = 0;
    while r < rows.len()
        invariant
            r <= rows@.len(),
            target == Seq::new(
                rows@.len(),
                |k: int| spec_parse_document(spec_cell(Json::model_elems(rows@), k, name@), base@),
            ),
            out@.len() == r as int,
            forall|k: int| 0 <= k < r as int ==> (#[trigger] out@[k]).deep_view() == target[k],
        decreases rows@.len() - r,
    {
        out.push(parse_document(cell_of(rows, r, name), base));
        r += 1;
    }
    proof {
        assert(out.deep_view() =~= target);
    }
    out
}

fn col_url(rows: &Vec<Json>, name: &str) -> (out: (Vec<Option<String>>, Vec<Option<String>>))
    ensures
        out.0.deep_view() == Seq::new(
            rows@.len(),
            |k: int| spec_parse_url(spec_cell(Json::model_elems(rows@), k, name@)).0,
        ),
        out.1.deep_view() == Seq::new(
            rows@.len(),
            |k: int| spec_parse_url(spec_cell(Json::model_elems(rows@), k, name@)).1,
        ),
{
    let ghost target0 = Seq::new(
        rows@.len(),
        |k: int| spec_parse_url(spec_cell(Json::model_elems(rows@), k, name@)).0,
    );
    let ghost target1 = Seq::new(
        rows@.len(),
        |k: int| spec_parse_url(spec_cell(Json::model_elems(rows@), k, name@)).1,
    );
    let mut urls: Vec<Option<String>> = Vec::with_capacity(rows.len());
    let mut descs: Vec<Option<String>> = Vec::with_capacity(rows.len());
    let mut r: usize = 0;
    while r < rows.len()
        invariant
            r <= rows@.len(),
            target0 == Seq::new(
                rows@.len(),
                |k: int| spec_parse_url(spec_cell(Json::model_elems(rows@), k, name@)).0,
            ),
            target1 == Seq::new(
                rows@.len(),
                |k: int| spec_parse_url(spec_cell(Json::model_elems(rows@), k, name@)).1,
            ),
            urls@.len() == r as int,
            descs@.len() == r as int,
            forall|k: int| 0 <= k < r as int ==> (#[trigger] urls@[k]).deep_view() == target0[k],
            forall|k: int| 0 <= k < r as int ==> (#[trigger] descs@[k]).deep_view() == target1[k],
        decreases rows@.len() - r,
    {
        let pair = parse_url(cell_of(rows, r, name));
        urls.push(pair.0);
        descs.push(pair.1);
        r += 1;
    }
    proof {
        assert(urls.deep_view() =~= target0);
        assert(descs.deep_view() =~= target1);
    }
    (urls, descs)
}

fn col_point(rows: &Vec<Json>, name: &str) -> (out: Vec<Option<(u64, u64)>>)
    ensures
        out@ == Seq::new(
            rows@.len(),
            |k: int| spec_parse_point(spec_cell(Json::model_elems(rows@), k, name@)),
        ),
{
    let ghost target = Seq::new(
        rows@.len(),
        |k: int| spec_parse_point(spec_cell(Json::model_elems(rows@), k, name@)),
    );
    let mut out: Vec<Option<(u64, u64)>> = Vec::with_capacity(rows.len());
    let mut r: usize = 0;
    while r < rows.len()
        invariant
            r <= rows@.len(),
            target == Seq::new(
                rows@.len(),
                |k: int| spec_parse_point(spec_cell(Json::model_elems(rows@), k, name@)),
            ),
            out@.len() == r as int,
            forall|k: int| 0 <= k < r as int ==> out@[k] == target[k],
        decreases rows@.len() - r,
    {
        out.push(parse_point(cell_of(rows, r, name)));
        r += 1;
    }
    proof {
        assert(out@ =~= target);
    }
    out
}

fn col_line(rows: &Vec<Json>, name: &str) -> (out: Vec<Option<Vec<(u64, u64)>>>)
    ensures
        out.deep_view() == Seq::new(
            rows@.len(),
            |k: int| spec_parse_line(spec_cell(Json::model_elems(rows@), k, name@)),
        ),
{
    let ghost target = Seq::new(
        rows@.len(),
        |k: int| spec_parse_line(spec_cell(Json::model_elems(rows@), k, name@)),
    );
    let mut out: Vec<Option<Vec<(u64, u64)>>> = Vec::with_capacity(rows.len());
    let mut r: usize = 0;
    while r < rows.len()
        invariant
            r <= rows@.len(),
            target == Seq::new(
                rows@.len(),
                |k: int| spec_parse_line(spec_cell(Json::model_elems(rows@), k, name@)),
            ),
            out@.len() == r as int,
            forall|k: int| 0 <= k < r as int ==> (#[trigger] out@[k]).deep_view() == target[k],
        decreases rows@.len() - r,
    {
        out.push(parse_line(cell_of(rows, r, name)));
        r += 1;
    }
    proof {
        assert(out.deep_view() =~= target);
    }
    out
}

fn col_multipoint(rows: &Vec<Json>, name: &str) -> (out: Vec<Option<Vec<(u64, u64)>>>)
    ensures
        out.deep_view() == Seq::new(
            rows@.len(),
            |k: int| spec_parse_multipoint(spec_cell(Json::model_elems(rows@), k, name@)),
        ),
{
    let ghost target = Seq::new(
        rows@.len(),
        |k: int| spec_parse_multipoint(spec_cell(Json::model_elems(rows@), k, name@)),
    );
    let mut out: Vec<Option<Vec<(u64, u64)>>> = Vec::with_capacity(rows.len());
    let mut r: usize = 0;
    while r < rows.len()
        invariant
            r <= rows@.len(),
            target == Seq::new(
                rows@.len(),
                |k: int| spec_parse_multipoint(spec_cell(Json::model_elems(rows@), k, name@)),
            ),
            out@.len() == r as int,
            forall|k: int| 0 <= k < r as int ==> (#[trigger] out@[k]).deep_view() == target[k],
        decreases rows@.len() - r,
    {
        out.push(parse_multipoint(cell_of(rows, r, name)));
        r += 1;
    }
    proof {
        assert(out.deep_view() =~= target);
    }
    out
}

fn col_polygon(rows: &Vec<Json>, name: &str) -> (out: Vec<Option<Vec<Vec<(u64, u64)>>>>)
    ensures
        out.deep_view() == Seq::new(
            rows@.len(),
            |k: int| spec_parse_polygon(spec_cell(Json::model_elems(rows@), k, name@)),
        ),
{
    let ghost target = Seq::new(
        rows@.len(),
        |k: int| spec_parse_polygon(spec_cell(Json::model_elems(rows@), k, name@)),
    );
    let mut out: Vec<Option<Vec<Vec<(u64, u64)>>>> = Vec::with_capacity(rows.len());
    let mut r: usize = 0;
    while r < rows.len()
        invariant
            r <= rows@.len(),
            target == Seq::new(
                rows@.len(),
                |k: int| spec_parse_polygon(spec_cell(Json::model_elems(rows@), k, name@)),
            ),
            out@.len() == r as int,
            forall|k: int| 0 <= k < r as int ==> (#[trigger] out@[k]).deep_view() == target[k],
        decreases rows@.len() - r,
    {
        out.push(parse_polygon(cell_of(rows, r, name)));
        r += 1;
    }
    proof {
        assert(out.deep_view() =~= target);
    }
    out
}

fn col_multiline(rows: &Vec<Json>, name: &str) -> (out: Vec<Option<Vec<Vec<(u64, u64)>>>>)
    ensures
        out.deep_view() == Seq::new(
            rows@.len(),
            |k: int| spec_parse_multiline(spec_cell(Json::model_elems(rows@), k, name@)),
        ),
{
    let ghost target = Seq::new(
        rows@.len(),
        |k: int| spec_parse_multiline(spec_cell(Json::model_elems(rows@), k, name@)),
    );
    let mut out: Vec<Option<Vec<Vec<(u64, u64)>>>> = Vec::with_capacity(rows.len());
    let mut r: usize = 0;
    while r < rows.len()
        invariant
            r <= rows@.len(),
            target == Seq::new(
                rows@.len(),
                |k: int| spec_parse_multiline(spec_cell(Json::model_elems(rows@), k, name@)),
            ),
            out@.len() == r as int,
            forall|k: int| 0 <= k < r as int ==> (#[trigger] out@[k]).deep_view() == target[k],
        decreases rows@.len() - r,
    {
        out.push(parse_multiline(cell_of(rows, r, name)));
        r += 1;
    }
    proof {
        assert(out.deep_view() =~= target);
    }
    out
}

fn col_multipolygon(rows: &Vec<Json>, name: &str) -> (out: Vec<Option<Vec<Vec<Vec<(u64, u64)>>>>>)
    ensures
        out.deep_view() == Seq::new(
            rows@.len(),
            |k: int| spec_parse_multipolygon(spec_cell(Json::model_elems(rows@), k, name@)),
        ),
{
    let ghost target = Seq::new(
        rows@.len(),
        |k: int| spec_parse_multipolygon(spec_cell(Json::model_elems(rows@), k, name@)),
    );
    let mut out: Vec<Option<Vec<Vec<Vec<(u64, u64)>>>>> = Vec::with_capacity(rows.len());
    let mut r: usize = 0;
    while r < rows.len()
        invariant
            r <= rows@.len(),
            target == Seq::new(
                rows@.len(),
                |k: int| spec_parse_multipolygon(spec_cell(Json::model_elems(rows@), k, name@)),
            ),
            out@.len() == r as int,
            forall|k: int| 0 <= k < r as int ==> (#[trigger] out@[k]).deep_view() == target[k],
        decreases rows@.len() - r,
    {
        out.push(parse_multipolygon(cell_of(rows, r, name)));
        r += 1;
    }
    proof {
        assert(out.deep_view() =~= target);
    }
    out
}

fn col_location(rows: &Vec<Json>, name: &str) -> (out: (
    Vec<Option<(u64, u64)>>,
    Vec<Option<String>>,
    Vec<Option<String>>,
    Vec<Option<String>>,
    Vec<Option<String>>,
))
    ensures
        out.0@ == Seq::new(
            rows@.len(),
            |k: int| spec_parse_location(spec_cell(Json::model_elems(rows@), k, name@)).0,
        ),
        out.1.deep_view() == Seq::new(
            rows@.len(),
            |k: int| spec_parse_location(spec_cell(Json::model_elems(rows@), k, name@)).1,
        ),
        out.2.deep_view() == Seq::new(
            rows@.len(),
            |k: int| spec_parse_location(spec_cell(Json::model_elems(rows@), k, name@)).2,
        ),
        out.3.deep_view() == Seq::new(
            rows@.len(),
            |k: int| spec_parse_location(spec_cell(Json::model_elems(rows@), k, name@)).3,
        ),
        out.4.deep_view() == Seq::new(
            rows@.len(),
            |k: int| spec_parse_location(spec_cell(Json::model_elems(rows@), k, name@)).4,
        ),
{
    let ghost mrows = Json::model_elems(rows@);
    let mut coords: Vec<Option<(u64, u64)>> = Vec::with_capacity(rows.len());
    let mut addresses: Vec<Option<String>> = Vec::with_capacity(rows.len());
    let mut cities: Vec<Option<String>> = Vec::with_capacity(rows.len());
    let mut states: Vec<Option<String>> = Vec::with_capacity(rows.len());
    let mut zips: Vec<Option<String>> = Vec::with_capacity(rows.len());
    let mut r: usize = 0;
    while r < rows.len()
        invariant
            r <= rows@.len(),
            mrows == Json::model_elems(rows@),
            coords@.len() == r as int,
            addresses@.len() == r as int,
            cities@.len() == r as int,
            states@.len() == r as int,
            zips@.len() == r as int,
            forall|k: int|
                0 <= k < r as int ==> coords@[k] == (#[trigger] spec_parse_location(
                    spec_cell(mrows, k, name@),
                )).0,
            forall|k: int|
                0 <= k < r as int ==> (#[trigger] addresses@[k]).deep_view()
                    == spec_parse_location(spec_cell(mrows, k, name@)).1,
            forall|k: int|
                0 <= k < r as int ==> (#[trigger] cities@[k]).deep_view() == spec_parse_location(
                    spec_cell(mrows, k, name@),
                ).2,
            forall|k: int|
                0 <= k < r as int ==> (#[trigger] states@[k]).deep_view() == spec_parse_location(
                    spec_cell(mrows, k, name@),
                ).3,
            forall|k: int|
                0 <= k < r as int ==> (#[trigger] zips@[k]).deep_view() == spec_parse_location(
                    spec_cell(mrows, k, name@),
                ).4,
        decreases rows@.len() - r,
    {
        let parts = parse_location(cell_of(rows, r, name));
        coords.push(parts.0);
        addresses.push(parts.1);
        cities.push(parts.2);
        states.push(parts.3);
        zips.push(parts.4);
        r += 1;
    }
    proof {
        assert(coords@ =~= Seq::new(
            rows@.len(),
            |k: int| spec_parse_location(spec_cell(mrows, k, name@)).0,
        ));
        assert(addresses.deep_view() =~= Seq::new(
            rows@.len(),
            |k: int| spec_parse_location(spec_cell(mrows, k, name@)).1,
        ));
        assert(cities.deep_view() =~= Seq::new(
            rows@.len(),
            |k: int| spec_parse_location(spec_cell(mrows, k, name@)).2,
        ));
        assert(states.deep_view() =~= Seq::new(
            rows@.len(),
            |k: int| spec_parse_location(spec_cell(mrows, k, name@)).3,
        ));
        assert(zips.deep_view() =~= Seq::new(
            rows@.len(),
            |k: int| spec_parse_location(spec_cell(mrows, k, name@)).4,
        ));
    }
    (coords, addresses, cities, states, zips)
}

/// One whole column: the row's field under `name`, decoded per `ty` for
/// every row, in row order.
pub fn decode_column(ty: ColumnType, rows: &Vec<Json>, name: &str, base: &str, zone: &str) -> (c:
    Column)
    ensures
        c.model() == spec_column(ty, Json::model_elems(rows@), name@, base@, zone@),
{
    proof {
        lemma_model_elems(rows@);
    }
    match ty {
        ColumnType::Boolean => Column::Boolean(col_boolean(rows, name)),
        ColumnType::Number => Column::Number(col_number(rows, name)),
        ColumnType::FixedTimestamp => Column::FixedTimestamp(col_fixed_timestamp(rows, name)),
        ColumnType::FloatingTimestamp => Column::FloatingTimestamp(
            col_floating_timestamp(rows, name, zone),
        ),
        ColumnType::Text => Column::Text(col_text(rows, name)),
        ColumnType::Url => Column::Url(col_url(rows, name)),
        ColumnType::Photo => Column::Photo(col_photo(rows, name, base)),
        ColumnType::Document => Column::Document(col_document(rows, name, base)),
        ColumnType::Point => Column::Point(col_point(rows, name)),
        ColumnType::Line => Column::Line(col_line(rows, name)),
        ColumnType::Polygon => Column::Polygon(col_polygon(rows, name)),
        ColumnType::MultiPoint => Column::MultiPoint(col_multipoint(rows, name)),
        ColumnType::MultiLine => Column::MultiLine(col_multiline(rows, name)),
        ColumnType::MultiPolygon => Column::MultiPolygon(col_multipolygon(rows, name)),
        ColumnType::Location => Column::Location(col_location(rows, name)),
    }
}

} // verus!
