use ipynb::error::IPyNbError;
use ipynb::{CellType, ExportFormat, Notebook, OutputType};

const SEVEN_CELLS: &str = r##"{
  "nbformat": 4,
  "nbformat_minor": 5,
  "cells": [
    {"cell_type": "markdown", "id": "c1", "source": ["# Title\n", "intro"]},
    {"cell_type": "code", "id": "c2", "source": ["print('hi')\n"],
     "outputs": [{"output_type": "stream", "name": "stdout", "text": ["hi\n"]}],
     "execution_count": 1},
    {"cell_type": "markdown", "id": "c3", "source": ["text"]},
    {"cell_type": "code", "id": "c4", "source": ["1 + 1"],
     "outputs": [{"output_type": "execute_result", "data": {"text/plain": ["2"]}}],
     "execution_count": 2},
    {"cell_type": "code", "id": "c5", "source": ["1/0"],
     "outputs": [{"output_type": "error", "ename": "ZeroDivisionError",
                  "evalue": "division by zero",
                  "traceback": ["Traceback line 1\n", "line 2"]}],
     "execution_count": 3},
    {"cell_type": "code", "id": "c6", "source": ["pass"], "outputs": [],
     "execution_count": null},
    {"cell_type": "markdown", "id": "c7", "source": []}
  ]
}"##;

#[test]
fn test_cell_type_from_str() {
    let cell_code = "code";
    let cell_markdown = "markdown";
    match CellType::from_str(cell_code) {
        Ok(CellType::Code) => (),
        _ => panic!("bad conversion &str to CellType"),
    };
    match CellType::from_str(cell_markdown) {
        Ok(CellType::Markdown) => (),
        _ => panic!("bad conversion &str to CellType"),
    };
}

#[test]
fn test_output_type_from_str() {
    match OutputType::from_str("stream") {
        Ok(OutputType::Stream) => (),
        _ => panic!("bad conversion &str to OutputType"),
    };
    match OutputType::from_str("execute_result") {
        Ok(OutputType::ExecuteResult) => (),
        _ => panic!("bad conversion &str to OutputType"),
    };
    match OutputType::from_str("error") {
        Ok(OutputType::Error) => (),
        _ => panic!("bad conversion &str to OutputType"),
    };
}

#[test]
fn test_read_notebook() {
    let nb = Notebook::new("./test.ipynb".to_string(), SEVEN_CELLS).unwrap();
    println!("{:?}", nb);
    assert_eq!(nb.get_cells().len(), 7);
}

#[test]
fn test_export_markdown() {
    let nb = Notebook::new("./test.ipynb".to_string(), SEVEN_CELLS).unwrap();
    let exported = nb.export(ExportFormat::Markdown);
    assert_eq!(exported, nb.to_markdown());
}

#[test]
fn test_discriminators_rejected() {
    assert_eq!(
        CellType::from_str("raw"),
        Err(IPyNbError::InvalidDiscriminator)
    );
    assert_eq!(
        OutputType::from_str("display_data"),
        Err(IPyNbError::InvalidDiscriminator)
    );
}

#[test]
fn test_read_back_fields() {
    let nb = Notebook::new("nb.ipynb".to_string(), SEVEN_CELLS).unwrap();
    assert_eq!(nb.get_path(), "nb.ipynb");
    assert_eq!(nb.get_nbformat(), 4);
    assert_eq!(nb.get_nbformat_mirror(), 5);
    assert_eq!(nb.get_cells().len(), 7);
}

#[test]
fn test_cell_fields() {
    let nb = Notebook::new("nb.ipynb".to_string(), SEVEN_CELLS).unwrap();
    let cells = nb.get_cells();

    let c1 = &cells[0];
    assert!(matches!(c1.get_type(), CellType::Markdown));
    assert_eq!(c1.get_id(), "c1");
    assert_eq!(c1.get_source(), &vec!["# Title\n".to_string(), "intro".to_string()]);
    assert_eq!(c1.get_source_as_string(), "# Title\nintro");
    assert!(c1.get_outputs().is_none());
    assert!(c1.get_execution_count().is_none());

    let c2 = &cells[1];
    assert!(matches!(c2.get_type(), CellType::Code));
    assert_eq!(*c2.get_execution_count(), Some(1));
    let outputs = c2.get_outputs().as_ref().unwrap();
    assert_eq!(outputs.len(), 1);
    assert_eq!(outputs[0].get_name(), "stdout");
    assert!(matches!(outputs[0].get_type(), OutputType::Stream));
    assert_eq!(outputs[0].get_text_as_string(), "hi\n");
    assert!(!outputs[0].is_error());
    assert!(outputs[0].get_evalue().is_none());
    assert!(outputs[0].get_traceback().is_none());
}

#[test]
fn test_execute_result_output() {
    let nb = Notebook::new("nb.ipynb".to_string(), SEVEN_CELLS).unwrap();
    let cells = nb.get_cells();
    let outputs = cells[3].get_outputs().as_ref().unwrap();
    assert_eq!(outputs.len(), 1);
    assert_eq!(outputs[0].get_name(), "result");
    assert!(matches!(outputs[0].get_type(), OutputType::ExecuteResult));
    assert_eq!(outputs[0].get_text_as_string(), "2");
    assert!(!outputs[0].is_error());
}

#[test]
fn test_error_output_text_order() {
    let nb = Notebook::new("nb.ipynb".to_string(), SEVEN_CELLS).unwrap();
    let cells = nb.get_cells();
    let outputs = cells[4].get_outputs().as_ref().unwrap();
    assert_eq!(outputs.len(), 1);
    let err = &outputs[0];
    assert_eq!(err.get_name(), "ZeroDivisionError");
    assert!(matches!(err.get_type(), OutputType::Error));
    assert!(err.is_error());
    assert_eq!(err.get_evalue().as_deref(), Some("division by zero"));
    assert_eq!(
        err.get_traceback().as_deref(),
        Some("Traceback line 1\nline 2")
    );
    assert_eq!(err.to_text(), "division by zero\nTraceback line 1\nline 2");
    assert_eq!(
        err.to_markdown(),
        "```\ndivision by zero\nTraceback line 1\nline 2```"
    );
}

#[test]
fn test_round_trip_rendering() {
    let nb = Notebook::new("nb.ipynb".to_string(), SEVEN_CELLS).unwrap();
    assert_eq!(nb.get_cells().len(), 7);
    for cell in nb.get_cells() {
        let md = cell.to_markdown();
        match cell.get_type() {
            CellType::Code => assert!(md.starts_with("```\n")),
            CellType::Markdown => {
                assert!(!md.contains("```"));
                assert!(md.ends_with('\n'));
            }
        }
    }
}

#[test]
fn test_empty_outputs_block() {
    let nb = Notebook::new("nb.ipynb".to_string(), SEVEN_CELLS).unwrap();
    let c6 = &nb.get_cells()[5];
    assert!(matches!(c6.get_type(), CellType::Code));
    let outputs = c6.get_outputs().as_ref().unwrap();
    assert!(outputs.is_empty());
    assert!(c6.get_execution_count().is_none());
    assert_eq!(c6.outputs_to_markdown(), "");
    assert!(!c6.to_markdown().contains("Output"));
}

#[test]
fn test_exact_rendering() {
    let doc = r#"{
      "nbformat": 4, "nbformat_minor": 5,
      "cells": [
        {"cell_type": "markdown", "id": "a", "source": ["hello"]},
        {"cell_type": "code", "id": "b", "source": ["x = 1"],
         "outputs": [{"output_type": "stream", "name": "stdout", "text": ["ok\n"]}],
         "execution_count": 1}
      ]
    }"#;
    let nb = Notebook::new("nb.ipynb".to_string(), doc).unwrap();
    assert_eq!(
        nb.to_markdown(),
        "hello\n\n```\nx = 1\n```\nOutput\n```\nok\n```\n"
    );
}

#[test]
fn test_rendering_idempotent() {
    let nb = Notebook::new("nb.ipynb".to_string(), SEVEN_CELLS).unwrap();
    assert_eq!(nb.to_markdown(), nb.to_markdown());
}

#[test]
fn test_missing_id_fails_load() {
    let doc = r#"{
      "nbformat": 4, "nbformat_minor": 5,
      "cells": [
        {"cell_type": "markdown", "id": "a", "source": ["fine"]},
        {"cell_type": "markdown", "source": ["no id"]}
      ]
    }"#;
    let r = Notebook::new("nb.ipynb".to_string(), doc);
    assert_eq!(r.unwrap_err(), IPyNbError::MissingRequiredField);
}

#[test]
fn test_unknown_output_type_fails_load() {
    let doc = r#"{
      "nbformat": 4, "nbformat_minor": 5,
      "cells": [
        {"cell_type": "code", "id": "a", "source": [],
         "outputs": [{"output_type": "unknown", "name": "x", "text": []}],
         "execution_count": null}
      ]
    }"#;
    let r = Notebook::new("nb.ipynb".to_string(), doc);
    assert_eq!(r.unwrap_err(), IPyNbError::MalformedOutputRecord);
}

#[test]
fn test_invalid_cell_type_fails_load() {
    let doc = r#"{
      "nbformat": 4, "nbformat_minor": 5,
      "cells": [{"cell_type": "raw", "id": "a", "source": []}]
    }"#;
    let r = Notebook::new("nb.ipynb".to_string(), doc);
    assert_eq!(r.unwrap_err(), IPyNbError::InvalidDiscriminator);
}

#[test]
fn test_malformed_document() {
    let r = Notebook::new("nb.ipynb".to_string(), "{not json");
    assert_eq!(r.unwrap_err(), IPyNbError::MalformedDocument);
}

#[test]
fn test_version_out_of_range() {
    let doc = r#"{"nbformat": 256, "nbformat_minor": 5, "cells": []}"#;
    let r = Notebook::new("nb.ipynb".to_string(), doc);
    assert_eq!(r.unwrap_err(), IPyNbError::MissingRequiredField);

    let doc = r#"{"nbformat": -1, "nbformat_minor": 5, "cells": []}"#;
    let r = Notebook::new("nb.ipynb".to_string(), doc);
    assert_eq!(r.unwrap_err(), IPyNbError::MissingRequiredField);

    let doc = r#"{"nbformat_minor": 5, "cells": []}"#;
    let r = Notebook::new("nb.ipynb".to_string(), doc);
    assert_eq!(r.unwrap_err(), IPyNbError::MissingRequiredField);
}

#[test]
fn test_markdown_cell_ignores_execution_count() {
    let doc = r#"{
      "nbformat": 4, "nbformat_minor": 5,
      "cells": [{"cell_type": "markdown", "id": "a", "source": ["t"],
                 "execution_count": 3}]
    }"#;
    let nb = Notebook::new("nb.ipynb".to_string(), doc).unwrap();
    let c = &nb.get_cells()[0];
    assert!(c.get_outputs().is_none());
    assert!(c.get_execution_count().is_none());
}

#[test]
fn test_save_unsupported() {
    let nb = Notebook::new("nb.ipynb".to_string(), SEVEN_CELLS).unwrap();
    assert_eq!(nb.save(), Err(IPyNbError::Unsupported));
}
