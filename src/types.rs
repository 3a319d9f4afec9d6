//! Records of the single-owner workspace entities (captures, sprints, workspaces,
//! documents, templates) and the request, filter and page types around them.

use vstd::prelude::*;

verus! {

pub type CaptureId = u64;

pub type SprintId = u64;

pub type WorkspaceId = u64;

pub type DocumentId = u64;

pub type TemplateId = u64;

/// Nanoseconds since the epoch.
pub type Timestamp = u64;

/// Main category of a capture.
#[derive(Clone, Copy, Debug, PartialEq, Eq, Structural)]
pub enum CaptureType {
    Idea,
    Task,
    Project,
    Reflection,
    Outline,
    Calendar,
}

/// Priority of a capture.
#[derive(Clone, Copy, Debug, PartialEq, Eq, Structural)]
pub enum Priority {
    Low,
    Medium,
    High,
    Critical,
}

impl Default for Priority {
    fn default() -> (r: Self)
        ensures
            r == Priority::Medium,
    {
        Priority::Medium
    }
}

/// Status of a capture.
#[derive(Clone, Copy, Debug, PartialEq, Eq, Structural)]
pub enum CaptureStatus {
    Draft,
    Active,
    InProgress,
    Blocked,
    Completed,
    Archived,
    Cancelled,
}

impl Default for CaptureStatus {
    fn default() -> (r: Self)
        ensures
            r == CaptureStatus::Draft,
    {
        CaptureStatus::Draft
    }
}

/// Kinds of idea.
#[derive(Clone, Copy, Debug, PartialEq, Eq, Structural)]
pub enum IdeaSubtype {
    FeatureRequest,
    Innovation,
    Improvement,
    Research,
    Experiment,
    Concept,
    Vision,
}

/// Kinds of task.
#[derive(Clone, Copy, Debug, PartialEq, Eq, Structural)]
pub enum TaskSubtype {
    Development,
    Design,
    Documentation,
    Review,
    Testing,
    Deployment,
    Maintenance,
    BugFix,
    Refactor,
}

/// Kinds of project.
#[derive(Clone, Copy, Debug, PartialEq, Eq, Structural)]
pub enum ProjectSubtype {
    Feature,
    Initiative,
    Epic,
    Milestone,
    Release,
    Campaign,
}

/// Fields whose use depends on the type of a capture.
#[derive(Debug)]
pub struct DynamicFields {
    /// Estimated effort in story points.
    pub estimate: Option<u32>,
    pub due_date: Option<Timestamp>,
    pub start_date: Option<Timestamp>,
    /// User identifiers of the assignees.
    pub assignees: Vec<String>,
    pub labels: Vec<String>,
    pub related_captures: Vec<CaptureId>,
    pub parent_id: Option<CaptureId>,
    pub sprint_id: Option<SprintId>,
    pub workspace_id: Option<WorkspaceId>,
    /// Free key-value metadata.
    pub custom_fields: Vec<(String, String)>,
}

impl Default for DynamicFields {
    fn default() -> (r: Self)
        ensures
            r.estimate is None,
            r.due_date is None,
            r.start_date is None,
            r.assignees@.len() == 0,
            r.labels@.len() == 0,
            r.related_captures@.len() == 0,
            r.parent_id is None,
            r.sprint_id is None,
            r.workspace_id is None,
            r.custom_fields@.len() == 0,
    {
        DynamicFields {
            estimate: None,
            due_date: None,
            start_date: None,
            assignees: Vec::new(),
            labels: Vec::new(),
            related_captures: Vec::new(),
            parent_id: None,
            sprint_id: None,
            workspace_id: None,
            custom_fields: Vec::new(),
        }
    }
}

/// Request to create a capture.
#[derive(Debug)]
pub struct CreateCaptureRequest {
    pub capture_type: CaptureType,
    pub title: String,
    pub description: Option<String>,
    pub content: Option<String>,
    pub priority: Option<Priority>,
    pub fields: Option<DynamicFields>,
}

/// Request to update a capture; absent fields stay as they are.
#[derive(Debug)]
pub struct UpdateCaptureRequest {
    pub id: CaptureId,
    pub title: Option<String>,
    pub description: Option<String>,
    pub content: Option<String>,
    pub priority: Option<Priority>,
    pub status: Option<CaptureStatus>,
    pub fields: Option<DynamicFields>,
}

/// Status of a sprint.
#[derive(Clone, Copy, Debug, PartialEq, Eq, Structural)]
pub enum SprintStatus {
    Planning,
    Active,
    Review,
    Completed,
    Cancelled,
}

impl Default for SprintStatus {
    fn default() -> (r: Self)
        ensures
            r == SprintStatus::Planning,
    {
        SprintStatus::Planning
    }
}

/// Request to create a sprint.
#[derive(Debug)]
pub struct CreateSprintRequest {
    pub name: String,
    pub goal: Option<String>,
    pub start_date: Timestamp,
    pub end_date: Timestamp,
    pub capacity: Option<u32>,
}

/// Request to update a sprint; absent fields stay as they are.
#[derive(Debug)]
pub struct UpdateSprintRequest {
    pub name: Option<String>,
    pub goal: Option<String>,
    pub status: Option<SprintStatus>,
    pub start_date: Option<Timestamp>,
    pub end_date: Option<Timestamp>,
    pub capacity: Option<u32>,
}

/// Request to create a workspace.
#[derive(Debug)]
pub struct CreateWorkspaceRequest {
    pub name: String,
    pub description: Option<String>,
    pub icon: Option<String>,
    pub parent_id: Option<WorkspaceId>,
}

/// Request to update a workspace; absent fields stay as they are.
#[derive(Debug)]
pub struct UpdateWorkspaceRequest {
    pub name: Option<String>,
    pub description: Option<String>,
    pub icon: Option<String>,
    pub parent_id: Option<WorkspaceId>,
    pub is_archived: Option<bool>,
}

/// Request to create a document in a workspace.
#[derive(Debug)]
pub struct CreateDocumentRequest {
    pub workspace_id: WorkspaceId,
    pub title: String,
    pub content: Option<String>,
    pub template_id: Option<TemplateId>,
    pub parent_id: Option<DocumentId>,
}

/// What a template produces.
#[derive(Clone, Copy, Debug, PartialEq, Eq, Structural)]
pub enum TemplateType {
    Capture,
    Document,
}

/// Request to create a template.
#[derive(Debug)]
pub struct CreateTemplateRequest {
    pub template_type: TemplateType,
    pub name: String,
    pub description: Option<String>,
    pub content: String,
    pub capture_type: Option<CaptureType>,
    pub default_fields: Option<DynamicFields>,
    pub is_public: Option<bool>,
}

/// Request to update a template; absent fields stay as they are.
#[derive(Debug)]
pub struct UpdateTemplateRequest {
    pub name: Option<String>,
    pub description: Option<String>,
    pub content: Option<String>,
    pub capture_type: Option<CaptureType>,
    pub default_fields: Option<DynamicFields>,
    pub is_public: Option<bool>,
}

/// Filter for listing captures; an absent field does not filter.
#[derive(Debug)]
pub struct CaptureFilter {
    pub capture_type: Option<CaptureType>,
    pub status: Option<CaptureStatus>,
    pub priority: Option<Priority>,
    pub sprint_id: Option<SprintId>,
    pub workspace_id: Option<WorkspaceId>,
    pub labels: Option<Vec<String>>,
}

impl Default for CaptureFilter {
    fn default() -> (r: Self)
        ensures
            r.capture_type is None,
            r.status is None,
            r.priority is None,
            r.sprint_id is None,
            r.workspace_id is None,
            r.labels is None,
    {
        CaptureFilter {
            capture_type: None,
            status: None,
            priority: None,
            sprint_id: None,
            workspace_id: None,
            labels: None,
        }
    }
}

/// Pagination of a listing.
#[derive(Clone, Copy, Debug, PartialEq, Eq, Structural)]
pub struct PaginationParams {
    pub offset: Option<u64>,
    pub limit: Option<u64>,
}

impl Default for PaginationParams {
    /// The first page of 50 items.
    fn default() -> (r: Self)
        ensures
            r.offset == Some(0u64),
            r.limit == Some(50u64),
    {
        PaginationParams { offset: Some(0), limit: Some(50) }
    }
}

/// One page of a listing.
#[derive(Debug)]
pub struct PaginatedResponse<T> {
    pub items: Vec<T>,
    pub total: u64,
    pub offset: u64,
    pub limit: u64,
}

/// Counts of the stored workspace entities.
#[derive(Clone, Copy, Debug, PartialEq, Eq, Structural)]
pub struct Stats {
    pub total_captures: u64,
    pub total_sprints: u64,
    pub total_workspaces: u64,
    pub total_documents: u64,
    pub total_templates: u64,
    pub total_users: u64,
}

} // verus!
