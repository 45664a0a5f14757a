//! The response parser.
//!
//! A query answer arrives as a columnar JSON document
//! `{"metadata": [...], "data": [[...], ...]}`.  The parser validates that
//! shape and reshapes every row into a name-keyed record: the value at
//! position `j` is paired with the name of column `j`.

use vstd::prelude::*;

use crate::json::JsonVal;
use crate::json::JsonValue;
use crate::json::clone_value;
use crate::json::entry_views_of;
use crate::json::lemma_entry_views_of;
use crate::json::lemma_views_of;
use crate::json::obj_get;
use crate::json::spec_obj_get;
use crate::json::views_of;
use crate::text::to_json_text;

verus! {

/// serde_json's error type, carried through as the cause of a failed
/// decode.
#[verifier::external_type_specification]
#[verifier::external_body]
pub struct ExSerdeJsonError(serde_json::Error);

/// One result column, as the `metadata` section describes it.
#[derive(Debug, PartialEq, Eq)]
pub struct ColumnMetadata {
    pub name: String,
    pub description: String,
    pub arraysize: Option<String>,
    pub unit: Option<String>,
    pub ucd: String,
}

/// The mathematical shape of a column description.
pub struct ColumnView {
    pub name: Seq<char>,
    pub description: Seq<char>,
    pub arraysize: Option<Seq<char>>,
    pub unit: Option<Seq<char>>,
    pub ucd: Seq<char>,
}

impl View for ColumnMetadata {
    type V = ColumnView;

    open spec fn view(&self) -> ColumnView {
        ColumnView {
            name: self.name@,
            description: self.description@,
            arraysize: match self.arraysize {
                Some(s) => Some(s@),
                None => None,
            },
            unit: match self.unit {
                Some(s) => Some(s@),
                None => None,
            },
            ucd: self.ucd@,
        }
    }
}

/// Why a call failed.
#[derive(Debug)]
pub enum VizierError {
    /// The body does not have the expected columnar shape; the text names
    /// the expectation that failed.
    UnexpectedSchema(String),
    /// A reshaped record could not be decoded into the target type.
    DeserializationFailed(serde_json::Error),
}

/// The parsed answer to one query: the column descriptions and one decoded
/// record per data row, in row order.
#[derive(Debug)]
pub struct QueryResult<T> {
    meta: Vec<ColumnMetadata>,
    data: Vec<T>,
}

impl<T> QueryResult<T> {
    /// The column descriptions, as a sequence.
    pub closed spec fn meta_view(&self) -> Seq<ColumnMetadata> {
        self.meta@
    }

    /// The decoded records, as a sequence.
    pub closed spec fn records_view(&self) -> Seq<T> {
        self.data@
    }

    pub fn meta(&self) -> (r: &[ColumnMetadata])
        ensures
            r@ == self.meta_view(),
    {
        self.meta.as_slice()
    }

    pub fn data(&self) -> (r: &[T])
        ensures
            r@ == self.records_view(),
    {
        self.data.as_slice()
    }

    /// How many records the answer holds.
    pub fn len(&self) -> (n: usize)
        ensures
            n == self.records_view().len(),
    {
        self.data.len()
    }

    pub fn is_empty(&self) -> (b: bool)
        ensures
            b == (self.records_view().len() == 0),
    {
        self.data.len() == 0
    }
}

/// The field is present and holds a string.
pub open spec fn wf_required_string(o: Option<JsonVal>) -> bool {
    match o {
        Some(f) => f is Str,
        None => false,
    }
}

/// The field is absent, or present and a string.
pub open spec fn wf_optional_string(o: Option<JsonVal>) -> bool {
    match o {
        Some(f) => f is Str,
        None => true,
    }
}

/// The string a field holds, the empty string where it is absent.
pub open spec fn str_of(o: Option<JsonVal>) -> Seq<char> {
    match o {
        Some(JsonVal::Str(s)) => s,
        _ => Seq::empty(),
    }
}

/// The string a field holds, `None` where it is absent.
pub open spec fn opt_str_of(o: Option<JsonVal>) -> Option<Seq<char>> {
    match o {
        Some(JsonVal::Str(s)) => Some(s),
        _ => None,
    }
}

/// A well-formed column description: an object whose required `name` and
/// `ucd` fields are strings, and whose `description`, `arraysize` and
/// `unit` fields are strings where present.
pub open spec fn wf_column(c: JsonVal) -> bool {
    &&& c is Obj
    &&& wf_required_string(spec_obj_get(c->Obj_0, "name"@))
    &&& wf_required_string(spec_obj_get(c->Obj_0, "ucd"@))
    &&& wf_optional_string(spec_obj_get(c->Obj_0, "description"@))
    &&& wf_optional_string(spec_obj_get(c->Obj_0, "arraysize"@))
    &&& wf_optional_string(spec_obj_get(c->Obj_0, "unit"@))
}

/// The column a well-formed description denotes.  An absent description
/// reads as the empty string.
pub open spec fn spec_column(c: JsonVal) -> ColumnView
    recommends
        wf_column(c),
{
    ColumnView {
        name: str_of(spec_obj_get(c->Obj_0, "name"@)),
        description: str_of(spec_obj_get(c->Obj_0, "description"@)),
        arraysize: opt_str_of(spec_obj_get(c->Obj_0, "arraysize"@)),
        unit: opt_str_of(spec_obj_get(c->Obj_0, "unit"@)),
        ucd: str_of(spec_obj_get(c->Obj_0, "ucd"@)),
    }
}

/// The elements of the `metadata` array, one per column.
pub open spec fn response_cols(v: JsonVal) -> Seq<JsonVal> {
    match spec_obj_get(v->Obj_0, "metadata"@) {
        Some(JsonVal::Arr(items)) => items,
        _ => Seq::empty(),
    }
}

/// The elements of the `data` array, one per row.
pub open spec fn response_rows(v: JsonVal) -> Seq<JsonVal> {
    match spec_obj_get(v->Obj_0, "data"@) {
        Some(JsonVal::Arr(items)) => items,
        _ => Seq::empty(),
    }
}

/// The body has the expected columnar shape: an object whose `metadata`
/// field is an array of well-formed column descriptions and whose `data`
/// field is an array of arrays.
pub open spec fn wf_response(v: JsonVal) -> bool {
    &&& v is Obj
    &&& spec_obj_get(v->Obj_0, "metadata"@) matches Some(m) && m is Arr
    &&& spec_obj_get(v->Obj_0, "data"@) matches Some(d) && d is Arr
    &&& forall|i: int|
        0 <= i < response_cols(v).len() ==> wf_column(#[trigger] response_cols(v)[i])
    &&& forall|i: int|
        0 <= i < response_rows(v).len() ==> (#[trigger] response_rows(v)[i]) is Arr
}

/// No row is longer than the column list, so every row value has a column
/// name to pair with.
pub open spec fn rows_fit(v: JsonVal) -> bool
    recommends
        wf_response(v),
{
    forall|i: int|
        0 <= i < response_rows(v).len() ==> (#[trigger] response_rows(v)[i])->Arr_0.len()
            <= response_cols(v).len()
}

/// `rec` is the name-keyed reshaping of `row` under the columns `cols`:
/// one entry per row value, keyed by the column name at the same position,
/// in position order.
pub open spec fn record_matches(rec: JsonVal, cols: Seq<JsonVal>, row: Seq<JsonVal>) -> bool {
    &&& rec is Obj
    &&& rec->Obj_0.len() == row.len()
    &&& forall|j: int|
        0 <= j < row.len() ==> (#[trigger] rec->Obj_0[j]) == (spec_column(cols[j]).name, row[j])
}

/// The whole `ensures` of a successful parse: the columns were read off
/// the `metadata` section in order, and record `i` is the reshaping of row
/// `i`.
pub open spec fn parse_ok<T>(q: QueryResult<T>, v: JsonVal, records: Seq<JsonVal>) -> bool {
    &&& q.meta_view().len() == response_cols(v).len()
    &&& forall|i: int|
        0 <= i < response_cols(v).len() ==> (#[trigger] q.meta_view()[i])@ == spec_column(
            response_cols(v)[i],
        )
    &&& records.len() == response_rows(v).len()
    &&& forall|i: int|
        0 <= i < response_rows(v).len() ==> record_matches(
            #[trigger] records[i],
            response_cols(v),
            response_rows(v)[i]->Arr_0,
        )
}

fn schema_error(text: &str) -> (r: VizierError)
    ensures
        r is UnexpectedSchema,
{
    VizierError::UnexpectedSchema(text.to_owned())
}

/// Reads one column description.
fn parse_column(c: &JsonValue) -> (r: Result<ColumnMetadata, VizierError>)
    ensures
        r is Ok <==> wf_column(c@),
        r matches Ok(m) ==> m@ == spec_column(c@),
        r matches Err(e) ==> e is UnexpectedSchema,
{
    let entries = match c {
        JsonValue::Obj(entries) => entries,
        _ => {
            return Err(schema_error("column description is not a JSON object"));
        },
    };
    let name = match obj_get(entries, "name") {
        Some(JsonValue::Str(s)) => s.clone(),
        _ => {
            return Err(schema_error("column description has no string `name`"));
        },
    };
    let ucd = match obj_get(entries, "ucd") {
        Some(JsonValue::Str(s)) => s.clone(),
        _ => {
            return Err(schema_error("column description has no string `ucd`"));
        },
    };
    let description = match obj_get(entries, "description") {
        Some(JsonValue::Str(s)) => s.clone(),
        Some(_) => {
            return Err(schema_error("column `description` is not a string"));
        },
        None => String::new(),
    };
    let arraysize = match obj_get(entries, "arraysize") {
        Some(JsonValue::Str(s)) => Some(s.clone()),
        Some(_) => {
            return Err(schema_error("column `arraysize` is not a string"));
        },
        None => None,
    };
    let unit = match obj_get(entries, "unit") {
        Some(JsonValue::Str(s)) => Some(s.clone()),
        Some(_) => {
            return Err(schema_error("column `unit` is not a string"));
        },
        None => None,
    };
    proof {
        assert(str_of(spec_obj_get(c@->Obj_0, "description"@)) == description@);
    }
    Ok(ColumnMetadata { name, description, arraysize, unit, ucd })
}

/// Reads the `metadata` section: every element must be a well-formed
/// column description.
fn parse_columns(cols: &Vec<JsonValue>) -> (r: Result<Vec<ColumnMetadata>, VizierError>)
    ensures
        r is Ok <==> (forall|i: int|
            0 <= i < cols@.len() ==> wf_column(#[trigger] views_of(cols@)[i])),
        r matches Ok(m) ==> {
            &&& m@.len() == cols@.len()
            &&& forall|i: int|
                0 <= i < cols@.len() ==> (#[trigger] m@[i])@ == spec_column(views_of(cols@)[i])
        },
        r matches Err(e) ==> e is UnexpectedSchema,
{
    proof {
        lemma_views_of(cols@);
    }
    let n = cols.len();
    let mut out: Vec<ColumnMetadata> = Vec::new();
    let mut i: usize = 0;
    while i < n
        invariant
            n == cols@.len(),
            i <= n,
            out@.len() == i,
            views_of(cols@).len() == cols@.len(),
            forall|j: int| 0 <= j < cols@.len() ==> views_of(cols@)[j] == (#[trigger] cols@[j])@,
            forall|j: int| 0 <= j < i ==> wf_column(#[trigger] views_of(cols@)[j]),
            forall|j: int|
                0 <= j < i ==> (#[trigger] out@[j])@ == spec_column(views_of(cols@)[j]),
        decreases n - i,
    {
        match parse_column(&cols[i]) {
            Ok(m) => {
                out.push(m);
            },
            Err(e) => {
                return Err(e);
            },
        }
        i += 1;
    }
    Ok(out)
}

/// Validates the columnar shape of a response body and reshapes every row
/// into a name-keyed record, without decoding the values.
///
/// Succeeds exactly on well-formed bodies whose rows all fit the column
/// list; otherwise nothing is reshaped and the schema error says which
/// expectation failed.  Record `i` pairs each value of row `i` with the
/// name of the column at the same position, in position order.
pub fn parse_untyped(v: &JsonValue) -> (r: Result<QueryResult<JsonValue>, VizierError>)
    ensures
        r is Ok <==> wf_response(v@) && rows_fit(v@),
        r matches Ok(q) ==> parse_ok(q, v@, q.records_view().map_values(|rec: JsonValue| rec@)),
        r matches Err(e) ==> e is UnexpectedSchema,
{
    let entries = match v {
        JsonValue::Obj(entries) => entries,
        _ => {
            return Err(schema_error("response is not a JSON object"));
        },
    };
    let meta_items = match obj_get(entries, "metadata") {
        Some(JsonValue::Arr(items)) => items,
        Some(_) => {
            return Err(schema_error("`metadata` is not an array"));
        },
        None => {
            return Err(schema_error("response has no `metadata` array"));
        },
    };
    let row_items = match obj_get(entries, "data") {
        Some(JsonValue::Arr(items)) => items,
        Some(_) => {
            return Err(schema_error("`data` is not an array"));
        },
        None => {
            return Err(schema_error("response has no `data` array"));
        },
    };
    proof {
        assert(response_cols(v@) == views_of(meta_items@));
        assert(response_rows(v@) == views_of(row_items@));
        lemma_views_of(meta_items@);
        lemma_views_of(row_items@);
    }
    let meta = match parse_columns(meta_items) {
        Ok(m) => m,
        Err(e) => {
            return Err(e);
        },
    };
    let n_cols = meta.len();
    let n_rows = row_items.len();
    let mut records: Vec<JsonValue> = Vec::new();
    let mut i: usize = 0;
    while i < n_rows
        invariant
            n_rows == row_items@.len(),
            i <= n_rows,
            records@.len() == i,
            n_cols == meta@.len(),
            views_of(row_items@).len() == row_items@.len(),
            forall|j: int|
                0 <= j < row_items@.len() ==> views_of(row_items@)[j] == (
                #[trigger] row_items@[j])@,
            response_rows(v@) == views_of(row_items@),
            response_cols(v@) == views_of(meta_items@),
            meta@.len() == response_cols(v@).len(),
            forall|j: int|
                0 <= j < response_cols(v@).len() ==> (#[trigger] meta@[j])@ == spec_column(
                    response_cols(v@)[j],
                ),
            forall|j: int| 0 <= j < i ==> (#[trigger] views_of(row_items@)[j]) is Arr,
            forall|j: int|
                0 <= j < i ==> (#[trigger] views_of(row_items@)[j])->Arr_0.len() <= n_cols,
            forall|j: int|
                0 <= j < i ==> record_matches(
                    (#[trigger] records@[j])@,
                    response_cols(v@),
                    views_of(row_items@)[j]->Arr_0,
                ),
        decreases n_rows - i,
    {
        let row = match &row_items[i] {
            JsonValue::Arr(vals) => vals,
            _ => {
                return Err(schema_error("a `data` row is not an array"));
            },
        };
        proof {
            lemma_views_of(row@);
            assert(views_of(row_items@)[i as int] == JsonVal::Arr(views_of(row@)));
        }
        if row.len() > n_cols {
            return Err(schema_error("a `data` row is longer than `metadata`"));
        }
        let n_vals = row.len();
        let mut rec: Vec<(String, JsonValue)> = Vec::new();
        let mut j: usize = 0;
        while j < n_vals
            invariant
                n_vals == row@.len(),
                j <= n_vals,
                rec@.len() == j,
                n_vals <= meta@.len(),
                views_of(row@).len() == row@.len(),
                forall|k: int| 0 <= k < row@.len() ==> views_of(row@)[k] == (#[trigger] row@[k])@,
                response_cols(v@) == views_of(meta_items@),
                meta@.len() == response_cols(v@).len(),
                forall|k: int|
                    0 <= k < response_cols(v@).len() ==> (#[trigger] meta@[k])@ == spec_column(
                        response_cols(v@)[k],
                    ),
                forall|k: int|
                    0 <= k < j ==> (#[trigger] rec@[k]).0@ == spec_column(
                        response_cols(v@)[k],
                    ).name && rec@[k].1@ == views_of(row@)[k],
            decreases n_vals - j,
        {
            let name = meta[j].name.clone();
            let value = clone_value(&row[j]);
            rec.push((name, value));
            j += 1;
        }
        proof {
            lemma_entry_views_of(rec@);
            let rv = views_of(row_items@)[i as int]->Arr_0;
            assert(rv == views_of(row@));
            assert forall|k: int| 0 <= k < rv.len() implies #[trigger] entry_views_of(rec@)[k]
                == (spec_column(response_cols(v@)[k]).name, rv[k]) by {
                assert(entry_views_of(rec@)[k] == (rec@[k].0@, crate::json::view_of(rec@[k].1)));
            }
            assert(record_matches(
                JsonVal::Obj(entry_views_of(rec@)),
                response_cols(v@),
                rv,
            ));
        }
        records.push(JsonValue::Obj(rec));
        i += 1;
    }
    proof {
        let recs = records@.map_values(|rec: JsonValue| rec@);
        assert forall|j: int| 0 <= j < response_rows(v@).len() implies record_matches(
            #[trigger] recs[j],
            response_cols(v@),
            response_rows(v@)[j]->Arr_0,
        ) by {
            assert(recs[j] == records@[j]@);
        }
    }
    Ok(QueryResult { meta, data: records })
}

/// Relies on serde_json::from_str: decodes JSON text into `T` by
/// structural field-name matching; `Err` where the text does not fit the
/// target, such as a missing mandatory field.
#[verifier::external_body]
fn decode_from_text<T: serde::de::DeserializeOwned>(text: &str) -> (r: Result<
    T,
    serde_json::Error,
>) {
    serde_json::from_str(text)
}

/// Validates and reshapes the body exactly as [`parse_untyped`] does, then
/// decodes every record into `T`, in row order.
///
/// A schema error comes exactly when the body is not well formed; a decode
/// error comes only from a well-formed body with at least one row, so a
/// well-formed body with no rows always succeeds; one failed decode fails
/// the whole call with the decoder's error, and no partial result is ever
/// returned.
pub fn parse_query_result<T: serde::de::DeserializeOwned>(v: &JsonValue) -> (r: Result<
    QueryResult<T>,
    VizierError,
>)
    ensures
        (r matches Err(e) && e is UnexpectedSchema) <==> !(wf_response(v@) && rows_fit(v@)),
        wf_response(v@) && rows_fit(v@) && response_rows(v@).len() == 0 ==> r is Ok,
        (r matches Err(e) && e is DeserializationFailed) ==> wf_response(v@) && rows_fit(v@)
            && response_rows(v@).len() > 0,
        r matches Ok(q) ==> {
            &&& q.meta_view().len() == response_cols(v@).len()
            &&& forall|i: int|
                0 <= i < response_cols(v@).len() ==> (#[trigger] q.meta_view()[i])@ == spec_column(
                    response_cols(v@)[i],
                )
            &&& q.records_view().len() == response_rows(v@).len()
        },
{
    let untyped = match parse_untyped(v) {
        Ok(u) => u,
        Err(e) => {
            return Err(e);
        },
    };
    let QueryResult { meta, data: records } = untyped;
    let n = records.len();
    let mut data: Vec<T> = Vec::new();
    let mut i: usize = 0;
    while i < n
        invariant
            n == records@.len(),
            n == response_rows(v@).len(),
            i <= n,
            data@.len() == i,
            wf_response(v@) && rows_fit(v@),
        decreases n - i,
    {
        let text = to_json_text(&records[i]);
        match decode_from_text::<T>(text.as_str()) {
            Ok(t) => {
                data.push(t);
            },
            Err(e) => {
                return Err(VizierError::DeserializationFailed(e));
            },
        }
        i += 1;
    }
    Ok(QueryResult { meta, data })
}

} // verus!
