//! InfluxDB v2 client core: the annotated-CSV query decoder, the record
//! grouper, map projection and the line-protocol encoder.

pub mod codec;
pub mod error;
pub mod group;
pub mod map;
pub mod models;
pub mod point;
pub mod projection;
pub mod reader;
pub mod schema_query;
pub mod text;
pub mod value;
pub mod writable;

pub use codec::{bool_from_lowercase, encode_cell, parse_value};
pub use error::{DecodeError, DecodeErrorModel};
pub use group::QueryResult;
pub use map::GenericMap;
pub use models::{
    CreateTaskRequest, ListAuthorizationsRequest, ListBucketsRequest, ListOrganizationRequest,
    ListTasksRequest, TaskLinks, TaskStatusType, TimestampPrecision,
};
pub use point::{
    DataPoint, DataPointBuilder, DataPointError, FieldValue, PointError, PointSchema, Role,
    SchemaError,
};
pub use projection::{project, FromMap, MappingError, ToMap, ValueKind};
pub use schema_query::{schema_query, schema_values};
pub use reader::{collect_records, FluxColumn, FluxRecord, FluxTableMetadata, QueryTableIter, QueryTableResult};
pub use value::{DataType, Timestamp, Value, ValueModel};
pub use writable::{FieldsWritable, KeyWritable, TagsWritable, TimestampWritable, ValueWritable};
