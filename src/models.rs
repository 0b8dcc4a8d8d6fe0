//! Request and task models of the InfluxDB v2 API, as plain values.

use vstd::prelude::*;

verus! {

/// Possible timestamp precisions of a write.
#[derive(Clone, Copy, Debug, PartialEq, Eq, Structural)]
pub enum TimestampPrecision {
    Seconds,
    Milliseconds,
    Microseconds,
    Nanoseconds,
}

impl TimestampPrecision {
    /// The name the write API uses for the precision.
    pub fn api_short_name(&self) -> (r: &'static str)
        ensures
            r@ == match self {
                TimestampPrecision::Seconds => "s"@,
                TimestampPrecision::Milliseconds => "ms"@,
                TimestampPrecision::Microseconds => "us"@,
                TimestampPrecision::Nanoseconds => "ns"@,
            },
    {
        match self {
            TimestampPrecision::Seconds => "s",
            TimestampPrecision::Milliseconds => "ms",
            TimestampPrecision::Microseconds => "us",
            TimestampPrecision::Nanoseconds => "ns",
        }
    }
}

/// Task status.
#[derive(Clone, Copy, Debug, PartialEq, Eq, Structural)]
pub enum TaskStatusType {
    Active,
    Inactive,
}

impl TaskStatusType {
    /// The name the API uses for the status.
    pub fn api_name(&self) -> (r: &'static str)
        ensures
            r@ == match self {
                TaskStatusType::Active => "active"@,
                TaskStatusType::Inactive => "inactive"@,
            },
    {
        match self {
            TaskStatusType::Active => "active",
            TaskStatusType::Inactive => "inactive",
        }
    }
}

/// Links of a task.
#[derive(Clone, Debug, Default)]
pub struct TaskLinks {
    pub self_: Option<String>,
    pub labels: Option<String>,
    pub logs: Option<String>,
    pub members: Option<String>,
    pub owners: Option<String>,
    pub runs: Option<String>,
}

/// Request for listing authorizations.
#[derive(Clone, Debug, Default)]
pub struct ListAuthorizationsRequest {
    pub org: Option<String>,
    pub org_id: Option<String>,
    pub token: Option<String>,
    pub user: Option<String>,
    pub user_id: Option<String>,
}

/// Request for the list buckets API.
#[derive(Clone, Debug, Default)]
pub struct ListBucketsRequest {
    pub after: Option<String>,
    pub id: Option<String>,
    pub limit: Option<u8>,
    pub name: Option<String>,
    pub offset: Option<u64>,
    pub org: Option<String>,
    pub org_id: Option<String>,
}

/// Request for the list organizations API.
#[derive(Clone, Debug, Default)]
pub struct ListOrganizationRequest {
    pub descending: Option<bool>,
    pub limit: Option<i64>,
    pub offset: Option<i64>,
    pub org: Option<String>,
    pub org_id: Option<String>,
    pub user_id: Option<String>,
}

impl ListOrganizationRequest {
    /// A request with no filter set.
    pub fn new() -> (r: ListOrganizationRequest)
        ensures
            r.descending.is_none() && r.limit.is_none() && r.offset.is_none() && r.org.is_none()
                && r.org_id.is_none() && r.user_id.is_none(),
    {
        ListOrganizationRequest {
            descending: None,
            limit: None,
            offset: None,
            org: None,
            org_id: None,
            user_id: None,
        }
    }
}

/// Request for the list tasks API.
#[derive(Clone, Debug, Default)]
pub struct ListTasksRequest {
    pub after: Option<String>,
    pub limit: Option<u16>,
    pub name: Option<String>,
    pub org: Option<String>,
    pub org_id: Option<String>,
    pub status: Option<String>,
    pub type_: Option<TaskStatusType>,
    pub user: Option<String>,
}

/// Task data sent when creating a task.
#[derive(Clone, Debug, Default)]
pub struct CreateTaskRequest {
    pub flux: String,
    pub org_id: String,
    pub description: Option<String>,
    pub org: Option<String>,
    pub status: Option<TaskStatusType>,
}

impl CreateTaskRequest {
    /// A request for the organization's task running `flux`.
    pub fn new(org_id: String, flux: String) -> (r: CreateTaskRequest)
        ensures
            r.org_id@ == org_id@ && r.flux@ == flux@ && r.description.is_none() && r.org.is_none()
                && r.status.is_none(),
    {
        CreateTaskRequest { flux, description: None, org: None, org_id, status: None }
    }
}

} // verus!
