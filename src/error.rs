//! Errors of the decode path.

use vstd::prelude::*;
use crate::text::{decimal_text, push_u64};
use crate::value::DataType;

verus! {

/// Why decoding a query response failed.
#[derive(Clone, Debug)]
pub enum DecodeError {
    /// The response text could not be split into CSV rows.
    UnreadableText,
    /// A row came before any annotation row opened a table.
    AnnotationsNotFound,
    /// A header row came before the table's `#datatype` row, or the text
    /// ended inside an annotation block.
    MalformedAnnotation,
    /// A `#datatype` cell named no known type.
    UnknownDataType { token: String },
    /// A row's width differs from its table's.
    ColumnCountMismatch { row: usize, table: usize },
    /// A row's first cell was neither empty nor a known annotation.
    InvalidFirstCell { cell: String },
    /// A cell could not be read as its column's declared type.
    ValueParseFailure { data_type: DataType, column: String, cell: String },
    /// The server reported a query error.
    QueryErrorRow { message: String },
    /// A record lacks the `_field` text or the `_value` needed to group it.
    MissingFieldColumn,
}

/// What a `DecodeError` denotes.
pub enum DecodeErrorModel {
    UnreadableText,
    AnnotationsNotFound,
    MalformedAnnotation,
    UnknownDataType { token: Seq<char> },
    ColumnCountMismatch { row: nat, table: nat },
    InvalidFirstCell { cell: Seq<char> },
    ValueParseFailure { data_type: DataType, column: Seq<char>, cell: Seq<char> },
    QueryErrorRow { message: Seq<char> },
    MissingFieldColumn,
}

impl View for DecodeError {
    type V = DecodeErrorModel;

    open spec fn view(&self) -> DecodeErrorModel {
        match self {
            DecodeError::UnreadableText => DecodeErrorModel::UnreadableText,
            DecodeError::AnnotationsNotFound => DecodeErrorModel::AnnotationsNotFound,
            DecodeError::MalformedAnnotation => DecodeErrorModel::MalformedAnnotation,
            DecodeError::UnknownDataType { token } => DecodeErrorModel::UnknownDataType {
                token: token@,
            },
            DecodeError::ColumnCountMismatch { row, table } =>
                DecodeErrorModel::ColumnCountMismatch { row: *row as nat, table: *table as nat },
            DecodeError::InvalidFirstCell { cell } => DecodeErrorModel::InvalidFirstCell {
                cell: cell@,
            },
            DecodeError::ValueParseFailure { data_type, column, cell } =>
                DecodeErrorModel::ValueParseFailure {
                data_type: *data_type,
                column: column@,
                cell: cell@,
            },
            DecodeError::QueryErrorRow { message } => DecodeErrorModel::QueryErrorRow {
                message: message@,
            },
            DecodeError::MissingFieldColumn => DecodeErrorModel::MissingFieldColumn,
        }
    }
}

/// The human-readable text of an error.
pub open spec fn message_of(e: DecodeErrorModel) -> Seq<char> {
    match e {
        DecodeErrorModel::UnreadableText => "response is not readable as CSV"@,
        DecodeErrorModel::AnnotationsNotFound => "annotations not found"@,
        DecodeErrorModel::MalformedAnnotation => "datatype annotation not found"@,
        DecodeErrorModel::UnknownDataType { token } => "unknown datatype: "@ + token,
        DecodeErrorModel::ColumnCountMismatch { row, table } =>
            "row has different number of columns than the table: "@ + decimal_text(row) + " vs "@
                + decimal_text(table),
        DecodeErrorModel::InvalidFirstCell { cell } => "invalid first cell: "@ + cell,
        DecodeErrorModel::ValueParseFailure { data_type, column, cell } => if data_type
            == DataType::Duration {
            "invalid duration: "@ + cell + ", name: "@ + column
        } else {
            "invalid value: "@ + cell + ", name: "@ + column
        },
        DecodeErrorModel::QueryErrorRow { message } => message,
        DecodeErrorModel::MissingFieldColumn => "record has no _field text or no _value"@,
    }
}

impl DecodeError {
    /// The human-readable text of this error.
    pub fn message(&self) -> (r: String)
        ensures
            r@ == message_of(self@),
    {
        match self {
            DecodeError::UnreadableText => String::from_str("response is not readable as CSV"),
            DecodeError::AnnotationsNotFound => String::from_str("annotations not found"),
            DecodeError::MalformedAnnotation => String::from_str("datatype annotation not found"),
            DecodeError::UnknownDataType { token } => {
                let mut r = String::from_str("unknown datatype: ");
                r.append(token.as_str());
                r
            },
            DecodeError::ColumnCountMismatch { row, table } => {
                let mut r = String::from_str(
                    "row has different number of columns than the table: ",
                );
                push_u64(&mut r, *row as u64);
                r.append(" vs ");
                push_u64(&mut r, *table as u64);
                r
            },
            DecodeError::InvalidFirstCell { cell } => {
                let mut r = String::from_str("invalid first cell: ");
                r.append(cell.as_str());
                r
            },
            DecodeError::ValueParseFailure { data_type, column, cell } => {
                let mut r = if *data_type == DataType::Duration {
                    String::from_str("invalid duration: ")
                } else {
                    String::from_str("invalid value: ")
                };
                r.append(cell.as_str());
                r.append(", name: ");
                r.append(column.as_str());
                r
            },
            DecodeError::QueryErrorRow { message } => message.clone(),
            DecodeError::MissingFieldColumn => String::from_str(
                "record has no _field text or no _value",
            ),
        }
    }
}

} // verus!
