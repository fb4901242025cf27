//! Documents in version-controlled repositories: safe paths, one branch for
//! changes, and synchronisation with a remote.
//!
//! A project has one or more repositories on disk. Its documents are the
//! Markdown and JSON files in them. This library decides everything about
//! reading, creating, updating, listing and synchronising them, and touches
//! neither the disk nor version control: each operation is a function from
//! what is known so far to the next [`effect::Step`], either a piece of
//! outside work for the caller to carry out or the final response.
//!
//! - [`path_guard`] keeps every path inside its repository.
//! - [`document_index`] tells documents from other files and lists them.
//! - [`branch_gate`] lets changes through on the documents branch only.
//! - [`sync_planner`] fetches, rebases and pushes.
//! - [`content`] and [`create`] read, update and create documents.

pub mod branch_gate;
pub mod content;
pub mod create;
pub mod document_index;
pub mod effect;
pub mod error;
pub mod model;
pub mod path_guard;
pub mod sync_planner;
pub mod text;

pub use branch_gate::{
    get_current_branch, list_branches, primary_repository, require_main_branch, switch_branch,
    BranchGate, BranchesProgress, DEFAULT_DOCS_BRANCH,
};
pub use content::{get_document_content, update_document_content, ReadProgress, UpdateProgress};
pub use create::{create_file, create_folder, CreateFileProgress, CreateFolderProgress};
pub use document_index::{begin_listing, list_project_documents, DocumentIndex, ScanProgress};
pub use effect::{DirEntry, Effect, PathFacts, Reply, Step};
pub use error::DocumentError;
pub use model::{
    BranchInfo, CreateFileRequest, CreateFileResponse, CreateFolderRequest, CreateFolderResponse,
    DocumentContent, DocumentFileType, DocumentMetadata, GetBranchResponse, ListBranchesResponse,
    ListDocumentsResponse, SwitchBranchRequest, SwitchBranchResponse, SyncRequest, SyncResponse,
    SyncStatusResponse, UpdateDocumentRequest, UpdateDocumentResponse,
};
pub use sync_planner::{get_sync_status, sync_documents, StatusProgress, SyncOutcome, SyncProgress};
