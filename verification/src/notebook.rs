use vstd::prelude::*;

verus! {

use vstd::string::StringExecFns;
use crate::{CellType, ExportFormat, OutputType, spec_cell_type_of};
use crate::error::IPyNbError;
use crate::json::{
    JsonValue,
    all_strings,
    json_string_views,
    json_strings,
    json_of,
    obj_get,
    parse_json_text,
    spec_obj_get,
};
use crate::utils::{spec_join, spec_trim, string_views, trim_str, vec_to_string};

/// Notebook- and cell-level settings. The format reserves room for them,
/// but this model carries none: whatever the source document holds is
/// discarded, not an error.
#[derive(Debug, Clone, Copy, PartialEq, Eq, Structural)]
pub struct Metadata {}

impl Metadata {
    pub fn new() -> (r: Metadata)
        ensures
            r == (Metadata {  }),
    {
        Metadata {  }
    }
}

/// The mathematical value of an `Output`: one canonical record of a
/// recorded execution result.
#[verifier::ext_equal]
pub struct OutputView {
    pub name: Seq<char>,
    pub output_type: OutputType,
    pub text: Seq<Seq<char>>,
    pub error: bool,
    pub error_value: Option<Seq<char>>,
}

/// One recorded result of executing a Code cell, already normalized to the
/// canonical shape: a name, a kind, the text lines, and the error value
/// where the record is an error.
#[derive(Debug)]
pub struct Output {
    name: String,
    output_type: OutputType,
    text: Vec<String>,
    error: bool,
    error_value: Option<String>,
}

impl View for Output {
    type V = OutputView;

    closed spec fn view(&self) -> OutputView {
        OutputView {
            name: self.name@,
            output_type: self.output_type,
            text: string_views(self.text@),
            error: self.error,
            error_value: match self.error_value {
                Some(s) => Some(s@),
                None => None,
            },
        }
    }
}

/// The body text of one output: the text lines joined with no separator,
/// with the error value and a newline in front where the output is an
/// error.
pub open spec fn spec_output_text(o: OutputView) -> Seq<char> {
    match o.error_value {
        Some(ev) => ev + "\n"@ + spec_join(o.text),
        None => spec_join(o.text),
    }
}

/// One output rendered standalone: its body text in a fenced code block.
pub open spec fn spec_output_markdown(o: OutputView) -> Seq<char> {
    "```\n"@ + spec_output_text(o) + "```"@
}

/// What normalizing a raw `stream` record yields: the record's own `name`
/// and `text`, no error.
pub open spec fn spec_normalize_stream(entries: Seq<(String, JsonValue)>) -> Result<
    OutputView,
    IPyNbError,
> {
    match (spec_obj_get(entries, "name"@), spec_obj_get(entries, "text"@)) {
        (Some(JsonValue::Str(nm)), Some(JsonValue::Arr(tx))) => if all_strings(tx@) {
            Ok(
                OutputView {
                    name: nm@,
                    output_type: OutputType::Stream,
                    text: json_string_views(tx@),
                    error: false,
                    error_value: None,
                },
            )
        } else {
            Err(IPyNbError::MalformedOutputRecord)
        },
        _ => Err(IPyNbError::MalformedOutputRecord),
    }
}

/// What normalizing a raw `execute_result` record yields: the literal name
/// `result` and the record's `data."text/plain"` lines, no error.
pub open spec fn spec_normalize_execute_result(entries: Seq<(String, JsonValue)>) -> Result<
    OutputView,
    IPyNbError,
> {
    match spec_obj_get(entries, "data"@) {
        Some(JsonValue::Obj(data)) => match spec_obj_get(data@, "text/plain"@) {
            Some(JsonValue::Arr(tx)) => if all_strings(tx@) {
                Ok(
                    OutputView {
                        name: "result"@,
                        output_type: OutputType::ExecuteResult,
                        text: json_string_views(tx@),
                        error: false,
                        error_value: None,
                    },
                )
            } else {
                Err(IPyNbError::MalformedOutputRecord)
            },
            _ => Err(IPyNbError::MalformedOutputRecord),
        },
        _ => Err(IPyNbError::MalformedOutputRecord),
    }
}

/// What normalizing a raw `error` record yields: the exception name, the
/// traceback as text, and the exception message as error value.
pub open spec fn spec_normalize_error(entries: Seq<(String, JsonValue)>) -> Result<
    OutputView,
    IPyNbError,
> {
    match (
        spec_obj_get(entries, "ename"@),
        spec_obj_get(entries, "evalue"@),
        spec_obj_get(entries, "traceback"@),
    ) {
        (
            Some(JsonValue::Str(en)),
            Some(JsonValue::Str(ev)),
            Some(JsonValue::Arr(tb)),
        ) => if all_strings(tb@) {
            Ok(
                OutputView {
                    name: en@,
                    output_type: OutputType::Error,
                    text: json_string_views(tb@),
                    error: true,
                    error_value: Some(ev@),
                },
            )
        } else {
            Err(IPyNbError::MalformedOutputRecord)
        },
        _ => Err(IPyNbError::MalformedOutputRecord),
    }
}

/// What normalizing one raw output record yields: dispatch on the record's
/// `output_type` discriminator over the three known shapes. A record that
/// is not an object, or whose discriminator is not one of the three
/// recognized strings, is a malformed output record; a missing or
/// non-string discriminator is a missing required field.
pub open spec fn spec_normalize_output(j: JsonValue) -> Result<OutputView, IPyNbError> {
    match j {
        JsonValue::Obj(entries) => match spec_obj_get(entries@, "output_type"@) {
            Some(JsonValue::Str(ts)) => {
                if ts@ == "stream"@ {
                    spec_normalize_stream(entries@)
                } else if ts@ == "execute_result"@ {
                    spec_normalize_execute_result(entries@)
                } else if ts@ == "error"@ {
                    spec_normalize_error(entries@)
                } else {
                    Err(IPyNbError::MalformedOutputRecord)
                }
            },
            Some(_) => Err(IPyNbError::MissingRequiredField),
            None => Err(IPyNbError::MissingRequiredField),
        },
        _ => Err(IPyNbError::MalformedOutputRecord),
    }
}

/// What normalizing a whole outputs array yields: each record normalized
/// in order, stopping at the first failure.
pub open spec fn spec_parse_outputs(items: Seq<JsonValue>) -> Result<Seq<OutputView>, IPyNbError>
    decreases items.len(),
{
    if items.len() == 0 {
        Ok(Seq::empty())
    } else {
        match spec_normalize_output(items[0]) {
            Err(e) => Err(e),
            Ok(o) => match spec_parse_outputs(items.drop_first()) {
                Err(e) => Err(e),
                Ok(rest) => Ok(seq![o] + rest),
            },
        }
    }
}

/// Normalizing an array whose first `i` records succeed is normalizing the
/// rest, with those records' results in front.
proof fn lemma_parse_outputs_skip(items: Seq<JsonValue>, i: int)
    requires
        0 <= i <= items.len(),
        forall|k: int| 0 <= k < i ==> spec_normalize_output(items[k]) is Ok,
    ensures
        spec_parse_outputs(items) == match spec_parse_outputs(items.skip(i)) {
            Ok(rest) => Ok(
                Seq::new(i as nat, |k: int| spec_normalize_output(items[k])->Ok_0) + rest,
            ),
            Err(e) => Err::<Seq<OutputView>, IPyNbError>(e),
        },
    decreases i,
{
    if i == 0 {
        assert(items.skip(0) =~= items);
        match spec_parse_outputs(items) {
            Ok(rest) => {
                assert(Seq::new(0, |k: int| spec_normalize_output(items[k])->Ok_0) + rest
                    =~= rest);
            },
            Err(_) => {},
        }
    } else {
        let tail = items.drop_first();
        lemma_parse_outputs_skip(tail, i - 1);
        assert(tail.skip(i - 1) =~= items.skip(i));
        let head = spec_normalize_output(items[0])->Ok_0;
        match spec_parse_outputs(items.skip(i)) {
            Ok(rest) => {
                assert(seq![head] + (Seq::new((i - 1) as nat, |k: int| spec_normalize_output(
                    tail[k],
                )->Ok_0) + rest) =~= Seq::new(i as nat, |k: int| spec_normalize_output(
                    items[k],
                )->Ok_0) + rest);
            },
            Err(_) => {},
        }
    }
}

impl Output {
    /// Builds one canonical output record from one raw record, normalizing
    /// whichever of the three known shapes it has.
    pub fn new(json_output: &JsonValue) -> (r: Result<Output, IPyNbError>)
        ensures
            r matches Ok(o) ==> spec_normalize_output(*json_output) == Ok::<
                OutputView,
                IPyNbError,
            >(o@),
            r matches Err(e) ==> spec_normalize_output(*json_output) == Err::<
                OutputView,
                IPyNbError,
            >(e),
    {
        let entries = match json_output {
            JsonValue::Obj(entries) => entries,
            _ => {
                return Err(IPyNbError::MalformedOutputRecord);
            },
        };
        let ts = match obj_get(entries, "output_type") {
            Some(JsonValue::Str(ts)) => ts,
            Some(_) => {
                return Err(IPyNbError::MissingRequiredField);
            },
            None => {
                return Err(IPyNbError::MissingRequiredField);
            },
        };
        if crate::utils::str_eq(ts.as_str(), "stream") {
            Self::new_stream(entries)
        } else if crate::utils::str_eq(ts.as_str(), "execute_result") {
            Self::new_execute_result(entries)
        } else if crate::utils::str_eq(ts.as_str(), "error") {
            Self::new_error(entries)
        } else {
            Err(IPyNbError::MalformedOutputRecord)
        }
    }

    fn new_stream(entries: &Vec<(String, JsonValue)>) -> (r: Result<Output, IPyNbError>)
        ensures
            r matches Ok(o) ==> spec_normalize_stream(entries@) == Ok::<OutputView, IPyNbError>(
                o@,
            ),
            r matches Err(e) ==> spec_normalize_stream(entries@) == Err::<OutputView, IPyNbError>(
                e,
            ),
    {
        let nm = match obj_get(entries, "name") {
            Some(JsonValue::Str(s)) => s,
            _ => {
                return Err(IPyNbError::MalformedOutputRecord);
            },
        };
        let tx = match obj_get(entries, "text") {
            Some(JsonValue::Arr(a)) => a,
            _ => {
                return Err(IPyNbError::MalformedOutputRecord);
            },
        };
        let text = match json_strings(tx) {
            Some(v) => v,
            None => {
                return Err(IPyNbError::MalformedOutputRecord);
            },
        };
        let o = Output {
            name: nm.clone(),
            output_type: OutputType::Stream,
            text,
            error: false,
            error_value: None,
        };
        proof {
            assert(spec_normalize_stream(entries@)->Ok_0 =~~= o@);
        }
        Ok(o)
    }

    fn new_execute_result(entries: &Vec<(String, JsonValue)>) -> (r: Result<Output, IPyNbError>)
        ensures
            r matches Ok(o) ==> spec_normalize_execute_result(entries@) == Ok::<
                OutputView,
                IPyNbError,
            >(o@),
            r matches Err(e) ==> spec_normalize_execute_result(entries@) == Err::<
                OutputView,
                IPyNbError,
            >(e),
    {
        let data = match obj_get(entries, "data") {
            Some(JsonValue::Obj(d)) => d,
            _ => {
                return Err(IPyNbError::MalformedOutputRecord);
            },
        };
        let tx = match obj_get(data, "text/plain") {
            Some(JsonValue::Arr(a)) => a,
            _ => {
                return Err(IPyNbError::MalformedOutputRecord);
            },
        };
        let text = match json_strings(tx) {
            Some(v) => v,
            None => {
                return Err(IPyNbError::MalformedOutputRecord);
            },
        };
        let o = Output {
            name: "result".to_owned(),
            output_type: OutputType::ExecuteResult,
            text,
            error: false,
            error_value: None,
        };
        proof {
            assert(spec_normalize_execute_result(entries@)->Ok_0 =~~= o@);
        }
        Ok(o)
    }

    fn new_error(entries: &Vec<(String, JsonValue)>) -> (r: Result<Output, IPyNbError>)
        ensures
            r matches Ok(o) ==> spec_normalize_error(entries@) == Ok::<OutputView, IPyNbError>(o@),
            r matches Err(e) ==> spec_normalize_error(entries@) == Err::<OutputView, IPyNbError>(
                e,
            ),
    {
        let en = match obj_get(entries, "ename") {
            Some(JsonValue::Str(s)) => s,
            _ => {
                return Err(IPyNbError::MalformedOutputRecord);
            },
        };
        let ev = match obj_get(entries, "evalue") {
            Some(JsonValue::Str(s)) => s,
            _ => {
                return Err(IPyNbError::MalformedOutputRecord);
            },
        };
        let tb = match obj_get(entries, "traceback") {
            Some(JsonValue::Arr(a)) => a,
            _ => {
                return Err(IPyNbError::MalformedOutputRecord);
            },
        };
        let text = match json_strings(tb) {
            Some(v) => v,
            None => {
                return Err(IPyNbError::MalformedOutputRecord);
            },
        };
        let o = Output {
            name: en.clone(),
            output_type: OutputType::Error,
            text,
            error: true,
            error_value: Some(ev.clone()),
        };
        proof {
            assert(spec_normalize_error(entries@)->Ok_0 =~~= o@);
        }
        Ok(o)
    }

    /// Normalizes every record of a raw outputs array, in order, stopping
    /// at the first failure.
    pub fn new_vec(json_outputs: &Vec<JsonValue>) -> (r: Result<Vec<Output>, IPyNbError>)
        ensures
            r matches Ok(os) ==> (spec_parse_outputs(json_outputs@) matches Ok(ovs) && os@.len()
                == ovs.len() && forall|i: int| 0 <= i < ovs.len() ==> os@[i]@ == ovs[i]),
            r matches Err(e) ==> spec_parse_outputs(json_outputs@) == Err::<
                Seq<OutputView>,
                IPyNbError,
            >(e),
    {
        let mut outputs: Vec<Output> = Vec::new();
        let mut i: usize = 0;
        while i < json_outputs.len()
            invariant
                0 <= i <= json_outputs@.len(),
                outputs@.len() == i,
                forall|k: int| 0 <= k < i ==> spec_normalize_output(json_outputs@[k]) is Ok,
                forall|k: int|
                    0 <= k < i ==> outputs@[k]@ == spec_normalize_output(json_outputs@[k])->Ok_0,
            decreases json_outputs@.len() - i,
        {
            match Output::new(&json_outputs[i]) {
                Ok(o) => {
                    outputs.push(o);
                },
                Err(e) => {
                    proof {
                        lemma_parse_outputs_skip(json_outputs@, i as int);
                        assert(json_outputs@.skip(i as int)[0] == json_outputs@[i as int]);
                    }
                    return Err(e);
                },
            }
            i += 1;
        }
        proof {
            lemma_parse_outputs_skip(json_outputs@, json_outputs@.len() as int);
            assert(json_outputs@.skip(json_outputs@.len() as int) =~= Seq::<JsonValue>::empty());
        }
        Ok(outputs)
    }

    pub fn get_name(&self) -> (r: &String)
        ensures
            r@ == self@.name,
    {
        &self.name
    }

    pub fn get_type(&self) -> (r: &OutputType)
        ensures
            *r == self@.output_type,
    {
        &self.output_type
    }

    pub fn get_text(&self) -> (r: &Vec<String>)
        ensures
            string_views(r@) == self@.text,
    {
        &self.text
    }

    pub fn get_text_as_string(&self) -> (r: String)
        ensures
            r@ == spec_join(self@.text),
    {
        vec_to_string(&self.text)
    }

    pub fn get_evalue(&self) -> (r: &Option<String>)
        ensures
            (r is Some) == (self@.error_value is Some),
            r matches Some(s) ==> self@.error_value == Some(s@),
    {
        &self.error_value
    }

    /// The joined text lines, where the output is an error: its text is
    /// then the traceback.
    pub fn get_traceback(&self) -> (r: Option<String>)
        ensures
            self@.error ==> (r matches Some(s) && s@ == spec_join(self@.text)),
            !self@.error ==> r is None,
    {
        if self.error {
            return Some(vec_to_string(&self.text));
        }
        None
    }

    pub fn is_error(&self) -> (r: bool)
        ensures
            r == self@.error,
    {
        self.error
    }

    /// The body text of this output; for an error, the first line is the
    /// error value.
    pub fn to_text(&self) -> (r: String)
        ensures
            r@ == spec_output_text(self@),
    {
        match &self.error_value {
            Some(evalue) => {
                let mut s = evalue.clone();
                s.append("\n");
                let text = vec_to_string(&self.text);
                s.append(text.as_str());
                s
            },
            None => vec_to_string(&self.text),
        }
    }

    /// The body text of this output, wrapped in a fenced code block.
    pub fn to_markdown(&self) -> (r: String)
        ensures
            r@ == spec_output_markdown(self@),
    {
        let mut s = "```\n".to_owned();
        let text = self.to_text();
        s.append(text.as_str());
        s.append("```");
        s
    }
}

/// The mathematical value of a `Cell`.
#[verifier::ext_equal]
pub struct CellView {
    pub cell_type: CellType,
    pub id: Seq<char>,
    pub source: Seq<Seq<char>>,
    pub outputs: Option<Seq<OutputView>>,
    pub execution_count: Option<usize>,
}

/// One unit of notebook content: explanatory text or executable source
/// with its recorded outputs. Outputs and the execution counter exist only
/// on Code cells.
#[derive(Debug)]
pub struct Cell {
    cell_type: CellType,
    id: String,
    metadata: Metadata,
    source: Vec<String>,
    outputs: Option<Vec<Output>>,
    execution_count: Option<usize>,
}

impl View for Cell {
    type V = CellView;

    closed spec fn view(&self) -> CellView {
        CellView {
            cell_type: self.cell_type,
            id: self.id@,
            source: string_views(self.source@),
            outputs: match self.outputs {
                Some(os) => Some(os@.map_values(|o: Output| o@)),
                None => None,
            },
            execution_count: self.execution_count,
        }
    }
}

/// What reading a cell's optional execution counter yields: absent or null
/// is no counter; an unsigned integer that fits the machine is a counter;
/// anything else is a missing required field.
pub open spec fn spec_parse_execution_count(entries: Seq<(String, JsonValue)>) -> Result<
    Option<usize>,
    IPyNbError,
> {
    match spec_obj_get(entries, "execution_count"@) {
        None => Ok(None),
        Some(JsonValue::Null) => Ok(None),
        Some(JsonValue::UInt(u)) => if u <= usize::MAX as u64 {
            Ok(Some(u as usize))
        } else {
            Err(IPyNbError::MissingRequiredField)
        },
        Some(_) => Err(IPyNbError::MissingRequiredField),
    }
}

/// What reading the Code-only fields of a cell yields: the outputs array
/// normalized record by record, and the execution counter.
pub open spec fn spec_parse_code_fields(
    entries: Seq<(String, JsonValue)>,
    id: Seq<char>,
    source: Seq<Seq<char>>,
) -> Result<CellView, IPyNbError> {
    match spec_obj_get(entries, "outputs"@) {
        Some(JsonValue::Arr(outs)) => match spec_parse_outputs(outs@) {
            Ok(ovs) => match spec_parse_execution_count(entries) {
                Ok(ec) => Ok(
                    CellView {
                        cell_type: CellType::Code,
                        id,
                        source,
                        outputs: Some(ovs),
                        execution_count: ec,
                    },
                ),
                Err(e) => Err(e),
            },
            Err(e) => Err(e),
        },
        _ => Err(IPyNbError::MissingRequiredField),
    }
}

/// What parsing one raw cell object yields. The discriminator, identifier
/// and source lines are required; a Markdown cell carries no outputs and
/// no execution counter, whatever the source record holds; a Code cell
/// reads both.
pub open spec fn spec_parse_cell(j: JsonValue) -> Result<CellView, IPyNbError> {
    match j {
        JsonValue::Obj(entries) => match spec_obj_get(entries@, "cell_type"@) {
            Some(JsonValue::Str(ts)) => match spec_cell_type_of(ts@) {
                Ok(ct) => match spec_obj_get(entries@, "id"@) {
                    Some(JsonValue::Str(id)) => match spec_obj_get(entries@, "source"@) {
                        Some(JsonValue::Arr(src)) => if all_strings(src@) {
                            if ct is Markdown {
                                Ok(
                                    CellView {
                                        cell_type: CellType::Markdown,
                                        id: id@,
                                        source: json_string_views(src@),
                                        outputs: None,
                                        execution_count: None,
                                    },
                                )
                            } else {
                                spec_parse_code_fields(entries@, id@, json_string_views(src@))
                            }
                        } else {
                            Err(IPyNbError::MissingRequiredField)
                        },
                        _ => Err(IPyNbError::MissingRequiredField),
                    },
                    _ => Err(IPyNbError::MissingRequiredField),
                },
                Err(e) => Err(e),
            },
            _ => Err(IPyNbError::MissingRequiredField),
        },
        _ => Err(IPyNbError::MissingRequiredField),
    }
}

/// What parsing a whole cells array yields: each cell in document order,
/// stopping at the first failure.
pub open spec fn spec_parse_cells(items: Seq<JsonValue>) -> Result<Seq<CellView>, IPyNbError>
    decreases items.len(),
{
    if items.len() == 0 {
        Ok(Seq::empty())
    } else {
        match spec_parse_cell(items[0]) {
            Err(e) => Err(e),
            Ok(c) => match spec_parse_cells(items.drop_first()) {
                Err(e) => Err(e),
                Ok(rest) => Ok(seq![c] + rest),
            },
        }
    }
}

/// Parsing an array whose first `i` cells succeed is parsing the rest,
/// with those cells' results in front.
proof fn lemma_parse_cells_skip(items: Seq<JsonValue>, i: int)
    requires
        0 <= i <= items.len(),
        forall|k: int| 0 <= k < i ==> spec_parse_cell(items[k]) is Ok,
    ensures
        spec_parse_cells(items) == match spec_parse_cells(items.skip(i)) {
            Ok(rest) => Ok(Seq::new(i as nat, |k: int| spec_parse_cell(items[k])->Ok_0) + rest),
            Err(e) => Err::<Seq<CellView>, IPyNbError>(e),
        },
    decreases i,
{
    if i == 0 {
        assert(items.skip(0) =~= items);
        match spec_parse_cells(items) {
            Ok(rest) => {
                assert(Seq::new(0, |k: int| spec_parse_cell(items[k])->Ok_0) + rest =~= rest);
            },
            Err(_) => {},
        }
    } else {
        let tail = items.drop_first();
        lemma_parse_cells_skip(tail, i - 1);
        assert(tail.skip(i - 1) =~= items.skip(i));
        let head = spec_parse_cell(items[0])->Ok_0;
        match spec_parse_cells(items.skip(i)) {
            Ok(rest) => {
                assert(seq![head] + (Seq::new((i - 1) as nat, |k: int| spec_parse_cell(
                    tail[k],
                )->Ok_0) + rest) =~= Seq::new(i as nat, |k: int| spec_parse_cell(items[k])->Ok_0)
                    + rest);
            },
            Err(_) => {},
        }
    }
}

/// The joined body of an outputs block: each output's body text followed
/// by a newline, concatenated in order.
pub open spec fn spec_outputs_body(outs: Seq<OutputView>) -> Seq<char> {
    spec_join(outs.map_values(|o: OutputView| spec_output_text(o) + "\n"@))
}

/// A cell's rendered outputs block. A cell without outputs, and a Code
/// cell whose outputs array is empty, renders an empty block: no heading,
/// no fences. Otherwise the joined body, trimmed of whitespace at both
/// ends, stands in one fenced code block under the literal heading line
/// `Output`.
pub open spec fn spec_outputs_markdown(c: CellView) -> Seq<char> {
    match c.outputs {
        None => Seq::empty(),
        Some(outs) => if outs.len() == 0 {
            Seq::empty()
        } else {
            "Output\n```\n"@ + spec_trim(spec_outputs_body(outs)) + "\n```"@
        },
    }
}

/// One cell's rendering: a Markdown cell emits its concatenated source
/// verbatim followed by a newline; a Code cell wraps its source in a
/// fenced code block followed by a newline, then appends its outputs
/// block.
pub open spec fn spec_cell_markdown(c: CellView) -> Seq<char> {
    if c.cell_type is Markdown {
        spec_join(c.source) + "\n"@
    } else {
        "```\n"@ + spec_join(c.source) + "\n```\n"@ + spec_outputs_markdown(c)
    }
}

impl Cell {
    /// Builds one cell from one raw cell object.
    pub fn new(json_cell: &JsonValue) -> (r: Result<Cell, IPyNbError>)
        ensures
            r matches Ok(c) ==> spec_parse_cell(*json_cell) == Ok::<CellView, IPyNbError>(c@),
            r matches Err(e) ==> spec_parse_cell(*json_cell) == Err::<CellView, IPyNbError>(e),
    {
        let entries = match json_cell {
            JsonValue::Obj(entries) => entries,
            _ => {
                return Err(IPyNbError::MissingRequiredField);
            },
        };
        let ts = match obj_get(entries, "cell_type") {
            Some(JsonValue::Str(s)) => s,
            _ => {
                return Err(IPyNbError::MissingRequiredField);
            },
        };
        let cell_type = match CellType::from_str(ts.as_str()) {
            Ok(ct) => ct,
            Err(e) => {
                return Err(e);
            },
        };
        let id = match obj_get(entries, "id") {
            Some(JsonValue::Str(s)) => s,
            _ => {
                return Err(IPyNbError::MissingRequiredField);
            },
        };
        let src = match obj_get(entries, "source") {
            Some(JsonValue::Arr(a)) => a,
            _ => {
                return Err(IPyNbError::MissingRequiredField);
            },
        };
        let source = match json_strings(src) {
            Some(v) => v,
            None => {
                return Err(IPyNbError::MissingRequiredField);
            },
        };
        let (outputs, execution_count) = match cell_type {
            CellType::Markdown => (None, None),
            CellType::Code => {
                let outs = match obj_get(entries, "outputs") {
                    Some(JsonValue::Arr(a)) => a,
                    _ => {
                        return Err(IPyNbError::MissingRequiredField);
                    },
                };
                let outputs = match Output::new_vec(outs) {
                    Ok(os) => os,
                    Err(e) => {
                        return Err(e);
                    },
                };
                let execution_count = match obj_get(entries, "execution_count") {
                    None => None,
                    Some(JsonValue::Null) => None,
                    Some(JsonValue::UInt(u)) => {
                        if *u <= usize::MAX as u64 {
                            Some(*u as usize)
                        } else {
                            return Err(IPyNbError::MissingRequiredField);
                        }
                    },
                    Some(_) => {
                        return Err(IPyNbError::MissingRequiredField);
                    },
                };
                (Some(outputs), execution_count)
            },
        };
        let c = Cell { cell_type, id: id.clone(), metadata: Metadata {  }, source, outputs, execution_count };
        proof {
            assert(spec_parse_cell(*json_cell)->Ok_0 =~~= c@);
        }
        Ok(c)
    }

    /// Parses every entry of a raw cells array, in document order,
    /// stopping at the first failure.
    pub fn new_vec(json_cells: &Vec<JsonValue>) -> (r: Result<Vec<Cell>, IPyNbError>)
        ensures
            r matches Ok(cs) ==> (spec_parse_cells(json_cells@) matches Ok(cvs) && cs@.len()
                == cvs.len() && forall|i: int| 0 <= i < cvs.len() ==> cs@[i]@ == cvs[i]),
            r matches Err(e) ==> spec_parse_cells(json_cells@) == Err::<
                Seq<CellView>,
                IPyNbError,
            >(e),
    {
        let mut cells: Vec<Cell> = Vec::new();
        let mut i: usize = 0;
        while i < json_cells.len()
            invariant
                0 <= i <= json_cells@.len(),
                cells@.len() == i,
                forall|k: int| 0 <= k < i ==> spec_parse_cell(json_cells@[k]) is Ok,
                forall|k: int|
                    0 <= k < i ==> cells@[k]@ == spec_parse_cell(json_cells@[k])->Ok_0,
            decreases json_cells@.len() - i,
        {
            match Cell::new(&json_cells[i]) {
                Ok(c) => {
                    cells.push(c);
                },
                Err(e) => {
                    proof {
                        lemma_parse_cells_skip(json_cells@, i as int);
                        assert(json_cells@.skip(i as int)[0] == json_cells@[i as int]);
                    }
                    return Err(e);
                },
            }
            i += 1;
        }
        proof {
            lemma_parse_cells_skip(json_cells@, json_cells@.len() as int);
            assert(json_cells@.skip(json_cells@.len() as int) =~= Seq::<JsonValue>::empty());
        }
        Ok(cells)
    }

    pub fn get_type(&self) -> (r: &CellType)
        ensures
            *r == self@.cell_type,
    {
        &self.cell_type
    }

    pub fn get_id(&self) -> (r: &String)
        ensures
            r@ == self@.id,
    {
        &self.id
    }

    pub fn get_metadata(&self) -> (r: &Metadata)
        ensures
            *r == (Metadata {  }),
    {
        &self.metadata
    }

    pub fn get_source(&self) -> (r: &Vec<String>)
        ensures
            string_views(r@) == self@.source,
    {
        &self.source
    }

    pub fn get_source_as_string(&self) -> (r: String)
        ensures
            r@ == spec_join(self@.source),
    {
        vec_to_string(&self.source)
    }

    pub fn get_outputs(&self) -> (r: &Option<Vec<Output>>)
        ensures
            (r is Some) == (self@.outputs is Some),
            r matches Some(os) ==> self@.outputs == Some(os@.map_values(|o: Output| o@)),
    {
        &self.outputs
    }

    pub fn get_execution_count(&self) -> (r: &Option<usize>)
        ensures
            *r == self@.execution_count,
    {
        &self.execution_count
    }

    /// Renders this cell's outputs block.
    pub fn outputs_to_markdown(&self) -> (r: String)
        ensures
            r@ == spec_outputs_markdown(self@),
    {
        let outputs = match &self.outputs {
            Some(outputs) => outputs,
            None => {
                return String::new();
            },
        };
        if outputs.len() == 0 {
            return String::new();
        }
        let ghost bodies = self@.outputs->Some_0.map_values(
            |o: OutputView| spec_output_text(o) + "\n"@,
        );
        let mut body = String::new();
        let mut i: usize = 0;
        proof {
            assert(bodies.take(0) =~= Seq::<Seq<char>>::empty());
        }
        while i < outputs.len()
            invariant
                0 <= i <= outputs@.len(),
                bodies == self@.outputs->Some_0.map_values(
                    |o: OutputView| spec_output_text(o) + "\n"@,
                ),
                self@.outputs == Some(outputs@.map_values(|o: Output| o@)),
                bodies.len() == outputs@.len(),
                body@ == spec_join(bodies.take(i as int)),
            decreases outputs@.len() - i,
        {
            let text = outputs[i].to_text();
            body.append(text.as_str());
            body.append("\n");
            proof {
                assert(bodies[i as int] == spec_output_text(outputs@[i as int]@) + "\n"@);
                assert(bodies.take(i + 1) =~= bodies.take(i as int).push(bodies[i as int]));
                crate::utils::lemma_join_push(bodies.take(i as int), bodies[i as int]);
            }
            i += 1;
        }
        proof {
            assert(bodies.take(outputs@.len() as int) =~= bodies);
            assert(body@ == spec_outputs_body(self@.outputs->Some_0));
        }
        let trimmed = trim_str(body.as_str());
        let mut markdown = "Output\n```\n".to_owned();
        markdown.append(trimmed.as_str());
        markdown.append("\n```");
        markdown
    }

    /// Renders this cell: its source, verbatim for a Markdown cell or
    /// fenced for a Code cell, followed by a newline; a Code cell then
    /// appends its outputs block.
    pub fn to_markdown(&self) -> (r: String)
        ensures
            r@ == spec_cell_markdown(self@),
    {
        let source = self.get_source_as_string();
        match self.cell_type {
            CellType::Markdown => {
                let mut markdown = source;
                markdown.append("\n");
                markdown
            },
            CellType::Code => {
                let mut markdown = "```\n".to_owned();
                markdown.append(source.as_str());
                markdown.append("\n```\n");
                let outputs = self.outputs_to_markdown();
                markdown.append(outputs.as_str());
                markdown
            },
        }
    }
}

/// The mathematical value of a `Notebook`.
#[verifier::ext_equal]
pub struct NotebookView {
    pub path: Seq<char>,
    pub nbformat: u8,
    pub nbformat_minor: u8,
    pub cells: Seq<CellView>,
}

/// The root entity: a parsed notebook document. Cell order is document
/// order and is preserved through load and render.
#[derive(Debug)]
pub struct Notebook {
    path: String,
    metadata: Metadata,
    nbformat: u8,
    nbformat_minor: u8,
    cells: Vec<Cell>,
}

impl View for Notebook {
    type V = NotebookView;

    closed spec fn view(&self) -> NotebookView {
        NotebookView {
            path: self.path@,
            nbformat: self.nbformat,
            nbformat_minor: self.nbformat_minor,
            cells: self.cells@.map_values(|c: Cell| c@),
        }
    }
}

/// What reading one of the two format version fields yields: an unsigned
/// integer representable in eight bits, anything else being rejected
/// early as a missing required field.
pub open spec fn spec_parse_version(
    entries: Seq<(String, JsonValue)>,
    key: Seq<char>,
) -> Result<u8, IPyNbError> {
    match spec_obj_get(entries, key) {
        Some(JsonValue::UInt(u)) => if u <= 255 {
            Ok(u as u8)
        } else {
            Err(IPyNbError::MissingRequiredField)
        },
        _ => Err(IPyNbError::MissingRequiredField),
    }
}

/// What parsing a whole raw document yields: the two version integers,
/// then the cells array, each cell in order; the first failure aborts the
/// whole parse.
pub open spec fn spec_parse_notebook(path: Seq<char>, j: JsonValue) -> Result<
    NotebookView,
    IPyNbError,
> {
    match j {
        JsonValue::Obj(entries) => match spec_parse_version(entries@, "nbformat"@) {
            Ok(nbformat) => match spec_parse_version(entries@, "nbformat_minor"@) {
                Ok(nbformat_minor) => match spec_obj_get(entries@, "cells"@) {
                    Some(JsonValue::Arr(cs)) => match spec_parse_cells(cs@) {
                        Ok(cells) => Ok(
                            NotebookView { path, nbformat, nbformat_minor, cells },
                        ),
                        Err(e) => Err(e),
                    },
                    _ => Err(IPyNbError::MissingRequiredField),
                },
                Err(e) => Err(e),
            },
            Err(e) => Err(e),
        },
        _ => Err(IPyNbError::MissingRequiredField),
    }
}

/// A whole notebook's rendering: each cell's rendering in document order,
/// each followed by a newline.
pub open spec fn spec_notebook_markdown(nb: NotebookView) -> Seq<char> {
    spec_join(nb.cells.map_values(|c: CellView| spec_cell_markdown(c) + "\n"@))
}

/// What exporting in a given format yields. Markdown is the only format.
pub open spec fn spec_export(nb: NotebookView, format: ExportFormat) -> Seq<char> {
    match format {
        ExportFormat::Markdown => spec_notebook_markdown(nb),
    }
}

impl Notebook {
    /// Builds a notebook from an already parsed JSON document.
    pub fn from_json(path: String, json: &JsonValue) -> (r: Result<Notebook, IPyNbError>)
        ensures
            r matches Ok(nb) ==> spec_parse_notebook(path@, *json) == Ok::<
                NotebookView,
                IPyNbError,
            >(nb@),
            r matches Err(e) ==> spec_parse_notebook(path@, *json) == Err::<
                NotebookView,
                IPyNbError,
            >(e),
    {
        let entries = match json {
            JsonValue::Obj(entries) => entries,
            _ => {
                return Err(IPyNbError::MissingRequiredField);
            },
        };
        let nbformat = match Self::read_version(entries, "nbformat") {
            Ok(v) => v,
            Err(e) => {
                return Err(e);
            },
        };
        let nbformat_minor = match Self::read_version(entries, "nbformat_minor") {
            Ok(v) => v,
            Err(e) => {
                return Err(e);
            },
        };
        let cs = match obj_get(entries, "cells") {
            Some(JsonValue::Arr(a)) => a,
            _ => {
                return Err(IPyNbError::MissingRequiredField);
            },
        };
        let cells = match Cell::new_vec(cs) {
            Ok(v) => v,
            Err(e) => {
                return Err(e);
            },
        };
        let nb = Notebook { path, metadata: Metadata {  }, nbformat, nbformat_minor, cells };
        proof {
            assert(spec_parse_notebook(nb.path@, *json)->Ok_0 =~~= nb@);
        }
        Ok(nb)
    }

    fn read_version(entries: &Vec<(String, JsonValue)>, key: &str) -> (r: Result<u8, IPyNbError>)
        ensures
            r == spec_parse_version(entries@, key@),
    {
        match obj_get(entries, key) {
            Some(JsonValue::UInt(u)) => {
                if *u <= 255 {
                    Ok(*u as u8)
                } else {
                    Err(IPyNbError::MissingRequiredField)
                }
            },
            _ => Err(IPyNbError::MissingRequiredField),
        }
    }

    /// Parses a notebook document from its text. The path only records
    /// where the document came from; reading the file is the caller's
    /// business.
    pub fn new(path: String, data: &str) -> (r: Result<Notebook, IPyNbError>)
        ensures
            json_of(data@) is None ==> r == Err::<Notebook, IPyNbError>(
                IPyNbError::MalformedDocument,
            ),
            json_of(data@) matches Some(j) ==> (match r {
                Ok(nb) => spec_parse_notebook(path@, j) == Ok::<NotebookView, IPyNbError>(nb@),
                Err(e) => spec_parse_notebook(path@, j) == Err::<NotebookView, IPyNbError>(e),
            }),
    {
        match parse_json_text(data) {
            Some(j) => Self::from_json(path, &j),
            None => Err(IPyNbError::MalformedDocument),
        }
    }

    pub fn get_path(&self) -> (r: &String)
        ensures
            r@ == self@.path,
    {
        &self.path
    }

    pub fn get_metadata(&self) -> (r: &Metadata)
        ensures
            *r == (Metadata {  }),
    {
        &self.metadata
    }

    pub fn get_nbformat(&self) -> (r: u8)
        ensures
            r == self@.nbformat,
    {
        self.nbformat
    }

    pub fn get_nbformat_mirror(&self) -> (r: u8)
        ensures
            r == self@.nbformat_minor,
    {
        self.nbformat_minor
    }

    pub fn get_cells(&self) -> (r: &Vec<Cell>)
        ensures
            r@.len() == self@.cells.len(),
            forall|i: int| 0 <= i < r@.len() ==> r@[i]@ == self@.cells[i],
    {
        &self.cells
    }

    /// Persisting edits back into notebook-document form is not part of
    /// this design; it is reported as unsupported rather than guessed.
    pub fn save(&self) -> (r: Result<(), IPyNbError>)
        ensures
            r == Err::<(), IPyNbError>(IPyNbError::Unsupported),
    {
        Err(IPyNbError::Unsupported)
    }

    /// Renders the whole notebook to one Markdown text.
    pub fn to_markdown(&self) -> (r: String)
        ensures
            r@ == spec_notebook_markdown(self@),
    {
        let ghost renders = self@.cells.map_values(|c: CellView| spec_cell_markdown(c) + "\n"@);
        let mut markdown = String::new();
        let mut i: usize = 0;
        proof {
            assert(renders.take(0) =~= Seq::<Seq<char>>::empty());
        }
        while i < self.cells.len()
            invariant
                0 <= i <= self.cells@.len(),
                renders == self@.cells.map_values(|c: CellView| spec_cell_markdown(c) + "\n"@),
                self@.cells == self.cells@.map_values(|c: Cell| c@),
                renders.len() == self.cells@.len(),
                markdown@ == spec_join(renders.take(i as int)),
            decreases self.cells@.len() - i,
        {
            let cell_md = self.cells[i].to_markdown();
            markdown.append(cell_md.as_str());
            markdown.append("\n");
            proof {
                assert(renders[i as int] == spec_cell_markdown(self.cells@[i as int]@) + "\n"@);
                assert(renders.take(i + 1) =~= renders.take(i as int).push(renders[i as int]));
                crate::utils::lemma_join_push(renders.take(i as int), renders[i as int]);
            }
            i += 1;
        }
        proof {
            assert(renders.take(self.cells@.len() as int) =~= renders);
        }
        markdown
    }

    /// Renders the notebook in the given export format.
    pub fn export(&self, export_format: ExportFormat) -> (r: String)
        ensures
            r@ == spec_export(self@, export_format),
    {
        match export_format {
            ExportFormat::Markdown => self.to_markdown(),
        }
    }
}

/// The shape invariant every successfully parsed cell has: a Code cell
/// always carries outputs (possibly an empty sequence); a Markdown cell
/// carries neither outputs nor an execution counter.
pub open spec fn spec_cell_wellformed(c: CellView) -> bool {
    &&& c.cell_type is Code ==> c.outputs is Some
    &&& c.cell_type is Markdown ==> c.outputs is None && c.execution_count is None
}

/// One parsed cell is well-formed.
proof fn lemma_parse_cell_wellformed(j: JsonValue)
    requires
        spec_parse_cell(j) is Ok,
    ensures
        spec_cell_wellformed(spec_parse_cell(j)->Ok_0),
{
}

/// Every cell of a successfully parsed cells array is well-formed.
proof fn lemma_parse_cells_wellformed(items: Seq<JsonValue>)
    requires
        spec_parse_cells(items) is Ok,
    ensures
        forall|i: int|
            0 <= i < spec_parse_cells(items)->Ok_0.len() ==> #[trigger] spec_cell_wellformed(
                spec_parse_cells(items)->Ok_0[i],
            ),
    decreases items.len(),
{
    if items.len() > 0 {
        lemma_parse_cell_wellformed(items[0]);
        lemma_parse_cells_wellformed(items.drop_first());
        let head = spec_parse_cell(items[0])->Ok_0;
        let rest = spec_parse_cells(items.drop_first())->Ok_0;
        assert forall|i: int| 0 <= i < spec_parse_cells(items)->Ok_0.len() implies
            #[trigger] spec_cell_wellformed(spec_parse_cells(items)->Ok_0[i]) by {
            if i == 0 {
                assert(spec_parse_cells(items)->Ok_0[i] == head);
            } else {
                assert(spec_parse_cells(items)->Ok_0[i] == rest[i - 1]);
            }
        }
    }
}

/// A successful parse yields exactly one cell per entry of the array.
proof fn lemma_parse_cells_len(items: Seq<JsonValue>)
    requires
        spec_parse_cells(items) is Ok,
    ensures
        spec_parse_cells(items)->Ok_0.len() == items.len(),
    decreases items.len(),
{
    if items.len() > 0 {
        lemma_parse_cells_len(items.drop_first());
    }
}

/// Law: a successful load reproduces the source document exactly: the
/// recorded path, both version integers as they stand in the document,
/// and one cell per entry of the document's cell array, in order.
pub proof fn lemma_load_reads_back(path: Seq<char>, j: JsonValue)
    requires
        spec_parse_notebook(path, j) is Ok,
    ensures
        ({
            let nb = spec_parse_notebook(path, j)->Ok_0;
            &&& nb.path == path
            &&& j matches JsonValue::Obj(entries)
            &&& spec_obj_get(entries@, "nbformat"@) == Some(
                JsonValue::UInt(nb.nbformat as u64),
            )
            &&& spec_obj_get(entries@, "nbformat_minor"@) == Some(
                JsonValue::UInt(nb.nbformat_minor as u64),
            )
            &&& (spec_obj_get(entries@, "cells"@) matches Some(cs) && cs matches JsonValue::Arr(
                arr,
            ) && arr@.len() == nb.cells.len())
        }),
{
    let entries = j->Obj_0;
    let cs = spec_obj_get(entries@, "cells"@)->Some_0;
    lemma_parse_cells_len(cs->Arr_0@);
}

/// Law: in every successfully parsed document, every Code cell carries
/// outputs (possibly empty) and every Markdown cell carries neither
/// outputs nor an execution counter.
pub proof fn lemma_load_cells_wellformed(path: Seq<char>, j: JsonValue)
    requires
        spec_parse_notebook(path, j) is Ok,
    ensures
        forall|i: int|
            0 <= i < spec_parse_notebook(path, j)->Ok_0.cells.len()
                ==> #[trigger] spec_cell_wellformed(spec_parse_notebook(path, j)->Ok_0.cells[i]),
{
    let entries = j->Obj_0;
    let cs = spec_obj_get(entries@, "cells"@)->Some_0;
    lemma_parse_cells_wellformed(cs->Arr_0@);
}

/// The shape invariant every normalized output has: the error flag is set
/// exactly on error records, and the error value is present exactly when
/// the flag is set.
pub open spec fn spec_output_wellformed(o: OutputView) -> bool {
    &&& o.error == (o.output_type is Error)
    &&& (o.error_value is Some) == o.error
}

/// Law: every record the normalizer accepts is well-formed: its error
/// flag and error value agree with its kind.
pub proof fn lemma_normalized_output_wellformed(j: JsonValue)
    requires
        spec_normalize_output(j) is Ok,
    ensures
        spec_output_wellformed(spec_normalize_output(j)->Ok_0),
{
}

/// A successful parse of a cells array parses each entry, in order.
proof fn lemma_parse_cells_pointwise(items: Seq<JsonValue>)
    requires
        spec_parse_cells(items) is Ok,
    ensures
        spec_parse_cells(items)->Ok_0.len() == items.len(),
        forall|i: int|
            0 <= i < items.len() ==> #[trigger] spec_parse_cell(items[i]) is Ok
                && spec_parse_cells(items)->Ok_0[i] == spec_parse_cell(items[i])->Ok_0,
    decreases items.len(),
{
    if items.len() > 0 {
        lemma_parse_cells_pointwise(items.drop_first());
        let rest = spec_parse_cells(items.drop_first())->Ok_0;
        assert forall|i: int| 0 <= i < items.len() implies #[trigger] spec_parse_cell(items[i])
            is Ok && spec_parse_cells(items)->Ok_0[i] == spec_parse_cell(items[i])->Ok_0 by {
            if i > 0 {
                assert(items.drop_first()[i - 1] == items[i]);
                assert(spec_parse_cells(items)->Ok_0[i] == rest[i - 1]);
            }
        }
    }
}

/// Law: cell order is document order: a successful load yields, at each
/// position, exactly the parse of the document's cell at that position.
pub proof fn lemma_load_preserves_cell_order(path: Seq<char>, j: JsonValue)
    requires
        spec_parse_notebook(path, j) is Ok,
    ensures
        ({
            let nb = spec_parse_notebook(path, j)->Ok_0;
            &&& j matches JsonValue::Obj(entries)
            &&& (spec_obj_get(entries@, "cells"@) matches Some(cs) && cs matches JsonValue::Arr(
                arr,
            ) && nb.cells.len() == arr@.len() && forall|i: int|
                0 <= i < arr@.len() ==> nb.cells[i] == #[trigger] spec_parse_cell(
                    arr@[i],
                )->Ok_0)
        }),
{
    let entries = j->Obj_0;
    let cs = spec_obj_get(entries@, "cells"@)->Some_0;
    lemma_parse_cells_pointwise(cs->Arr_0@);
}

/// Law: the normalizer fails on every record that is not a structured
/// object.
pub proof fn lemma_normalizer_rejects_non_object(j: JsonValue)
    requires
        !(j is Obj),
    ensures
        spec_normalize_output(j) == Err::<OutputView, IPyNbError>(
            IPyNbError::MalformedOutputRecord,
        ),
{
}

/// Law: the normalizer fails on every discriminator outside the three it
/// accepts; no unknown discriminator is coerced to a default shape.
pub proof fn lemma_normalizer_rejects_unknown_discriminator(j: JsonValue)
    requires
        j matches JsonValue::Obj(entries) && spec_obj_get(entries@, "output_type"@) matches Some(
            t,
        ) && t matches JsonValue::Str(ds) && ds@ != "stream"@ && ds@ != "execute_result"@ && ds@
            != "error"@,
    ensures
        spec_normalize_output(j) == Err::<OutputView, IPyNbError>(
            IPyNbError::MalformedOutputRecord,
        ),
{
}

/// Law: rendering is a pure function of the model: any two renderings of
/// the same notebook value are byte-identical.
pub proof fn lemma_render_deterministic(nb: NotebookView, r1: Seq<char>, r2: Seq<char>)
    requires
        r1 == spec_notebook_markdown(nb),
        r2 == spec_notebook_markdown(nb),
    ensures
        r1 == r2,
{
}

} // verus!
