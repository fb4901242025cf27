//! The values that requests and responses are made of, each with its view:
//! the same value with its texts as sequences of characters.

use vstd::prelude::*;

verus! {

/// The kind of a document, told by its file's extension.
#[derive(Debug, Clone, Copy, PartialEq, Eq, Structural)]
pub enum DocumentFileType {
    Markdown,
    Json,
}

/// Where a document lies and what it holds.
#[derive(Debug, Clone, PartialEq, Eq)]
pub struct DocumentMetadata {
    /// The file's name, without its folders.
    pub name: String,
    /// The path from the repository's root.
    pub relative_path: String,
    /// The path on the filesystem.
    pub absolute_path: String,
    pub file_type: DocumentFileType,
    pub size_bytes: u64,
}

/// The view of a [`DocumentMetadata`].
pub struct DocumentMetadataView {
    pub name: Seq<char>,
    pub relative_path: Seq<char>,
    pub absolute_path: Seq<char>,
    pub file_type: DocumentFileType,
    pub size_bytes: u64,
}

impl View for DocumentMetadata {
    type V = DocumentMetadataView;

    open spec fn view(&self) -> DocumentMetadataView {
        DocumentMetadataView {
            name: self.name@,
            relative_path: self.relative_path@,
            absolute_path: self.absolute_path@,
            file_type: self.file_type,
            size_bytes: self.size_bytes,
        }
    }
}

impl DeepView for DocumentMetadata {
    type V = DocumentMetadataView;

    open spec fn deep_view(&self) -> DocumentMetadataView {
        self@
    }
}

/// A document as it was read.
#[derive(Debug, Clone, PartialEq, Eq)]
pub struct DocumentContent {
    pub metadata: DocumentMetadata,
    pub content: String,
}

/// The view of a [`DocumentContent`].
pub struct DocumentContentView {
    pub metadata: DocumentMetadataView,
    pub content: Seq<char>,
}

impl View for DocumentContent {
    type V = DocumentContentView;

    open spec fn view(&self) -> DocumentContentView {
        DocumentContentView {
            metadata: self.metadata@,
            content: self.content@,
        }
    }
}

impl DeepView for DocumentContent {
    type V = DocumentContentView;

    open spec fn deep_view(&self) -> DocumentContentView {
        self@
    }
}

/// The documents of a project.
#[derive(Debug, Clone, PartialEq, Eq)]
pub struct ListDocumentsResponse {
    pub documents: Vec<DocumentMetadata>,
}

/// The view of a [`ListDocumentsResponse`].
pub struct ListDocumentsResponseView {
    pub documents: Seq<DocumentMetadataView>,
}

impl View for ListDocumentsResponse {
    type V = ListDocumentsResponseView;

    open spec fn view(&self) -> ListDocumentsResponseView {
        ListDocumentsResponseView {
            documents: self.documents.deep_view(),
        }
    }
}

impl DeepView for ListDocumentsResponse {
    type V = ListDocumentsResponseView;

    open spec fn deep_view(&self) -> ListDocumentsResponseView {
        self@
    }
}

/// The new content of a document.
#[derive(Debug, Clone, PartialEq, Eq)]
pub struct UpdateDocumentRequest {
    pub content: String,
}

/// The view of a [`UpdateDocumentRequest`].
pub struct UpdateDocumentRequestView {
    pub content: Seq<char>,
}

impl View for UpdateDocumentRequest {
    type V = UpdateDocumentRequestView;

    open spec fn view(&self) -> UpdateDocumentRequestView {
        UpdateDocumentRequestView {
            content: self.content@,
        }
    }
}

impl DeepView for UpdateDocumentRequest {
    type V = UpdateDocumentRequestView;

    open spec fn deep_view(&self) -> UpdateDocumentRequestView {
        self@
    }
}

/// What became of an update.
#[derive(Debug, Clone, PartialEq, Eq)]
pub struct UpdateDocumentResponse {
    pub success: bool,
    pub message: String,
    /// The branch on which the document was saved.
    pub branch: Option<String>,
    /// Whether the change was committed.
    pub committed: bool,
}

/// The view of a [`UpdateDocumentResponse`].
pub struct UpdateDocumentResponseView {
    pub success: bool,
    pub message: Seq<char>,
    pub branch: Option<Seq<char>>,
    pub committed: bool,
}

impl View for UpdateDocumentResponse {
    type V = UpdateDocumentResponseView;

    open spec fn view(&self) -> UpdateDocumentResponseView {
        UpdateDocumentResponseView {
            success: self.success,
            message: self.message@,
            branch: self.branch.deep_view(),
            committed: self.committed,
        }
    }
}

impl DeepView for UpdateDocumentResponse {
    type V = UpdateDocumentResponseView;

    open spec fn deep_view(&self) -> UpdateDocumentResponseView {
        self@
    }
}

/// Asks for a new folder.
#[derive(Debug, Clone, PartialEq, Eq)]
pub struct CreateFolderRequest {
    /// The folder's path from the repository's root.
    pub path: String,
}

/// The view of a [`CreateFolderRequest`].
pub struct CreateFolderRequestView {
    pub path: Seq<char>,
}

impl View for CreateFolderRequest {
    type V = CreateFolderRequestView;

    open spec fn view(&self) -> CreateFolderRequestView {
        CreateFolderRequestView {
            path: self.path@,
        }
    }
}

impl DeepView for CreateFolderRequest {
    type V = CreateFolderRequestView;

    open spec fn deep_view(&self) -> CreateFolderRequestView {
        self@
    }
}

/// What became of the creation of a folder.
#[derive(Debug, Clone, PartialEq, Eq)]
pub struct CreateFolderResponse {
    pub success: bool,
    pub message: String,
    pub path: String,
}

/// The view of a [`CreateFolderResponse`].
pub struct CreateFolderResponseView {
    pub success: bool,
    pub message: Seq<char>,
    pub path: Seq<char>,
}

impl View for CreateFolderResponse {
    type V = CreateFolderResponseView;

    open spec fn view(&self) -> CreateFolderResponseView {
        CreateFolderResponseView {
            success: self.success,
            message: self.message@,
            path: self.path@,
        }
    }
}

impl DeepView for CreateFolderResponse {
    type V = CreateFolderResponseView;

    open spec fn deep_view(&self) -> CreateFolderResponseView {
        self@
    }
}

/// Asks for a new file.
#[derive(Debug, Clone, PartialEq, Eq)]
pub struct CreateFileRequest {
    /// The file's path from the repository's root.
    pub path: String,
    /// What the file holds at first; nothing if absent.
    pub content: Option<String>,
}

/// The view of a [`CreateFileRequest`].
pub struct CreateFileRequestView {
    pub path: Seq<char>,
    pub content: Option<Seq<char>>,
}

impl View for CreateFileRequest {
    type V = CreateFileRequestView;

    open spec fn view(&self) -> CreateFileRequestView {
        CreateFileRequestView {
            path: self.path@,
            content: self.content.deep_view(),
        }
    }
}

impl DeepView for CreateFileRequest {
    type V = CreateFileRequestView;

    open spec fn deep_view(&self) -> CreateFileRequestView {
        self@
    }
}

/// What became of the creation of a file.
#[derive(Debug, Clone, PartialEq, Eq)]
pub struct CreateFileResponse {
    pub success: bool,
    pub message: String,
    pub metadata: DocumentMetadata,
    /// The branch on which the file was created.
    pub branch: Option<String>,
    /// Whether the new file was committed.
    pub committed: bool,
}

/// The view of a [`CreateFileResponse`].
pub struct CreateFileResponseView {
    pub success: bool,
    pub message: Seq<char>,
    pub metadata: DocumentMetadataView,
    pub branch: Option<Seq<char>>,
    pub committed: bool,
}

impl View for CreateFileResponse {
    type V = CreateFileResponseView;

    open spec fn view(&self) -> CreateFileResponseView {
        CreateFileResponseView {
            success: self.success,
            message: self.message@,
            metadata: self.metadata@,
            branch: self.branch.deep_view(),
            committed: self.committed,
        }
    }
}

impl DeepView for CreateFileResponse {
    type V = CreateFileResponseView;

    open spec fn deep_view(&self) -> CreateFileResponseView {
        self@
    }
}

/// The branch that the primary repository is on.
#[derive(Debug, Clone, PartialEq, Eq)]
pub struct GetBranchResponse {
    pub branch: String,
    /// Whether it is the documents branch.
    pub is_docs_branch: bool,
}

/// The view of a [`GetBranchResponse`].
pub struct GetBranchResponseView {
    pub branch: Seq<char>,
    pub is_docs_branch: bool,
}

impl View for GetBranchResponse {
    type V = GetBranchResponseView;

    open spec fn view(&self) -> GetBranchResponseView {
        GetBranchResponseView {
            branch: self.branch@,
            is_docs_branch: self.is_docs_branch,
        }
    }
}

impl DeepView for GetBranchResponse {
    type V = GetBranchResponseView;

    open spec fn deep_view(&self) -> GetBranchResponseView {
        self@
    }
}

/// One branch of a repository.
#[derive(Debug, Clone, PartialEq, Eq)]
pub struct BranchInfo {
    pub name: String,
    pub is_current: bool,
    pub is_remote: bool,
}

/// The view of a [`BranchInfo`].
pub struct BranchInfoView {
    pub name: Seq<char>,
    pub is_current: bool,
    pub is_remote: bool,
}

impl View for BranchInfo {
    type V = BranchInfoView;

    open spec fn view(&self) -> BranchInfoView {
        BranchInfoView {
            name: self.name@,
            is_current: self.is_current,
            is_remote: self.is_remote,
        }
    }
}

impl DeepView for BranchInfo {
    type V = BranchInfoView;

    open spec fn deep_view(&self) -> BranchInfoView {
        self@
    }
}

/// The branches of the primary repository.
#[derive(Debug, Clone, PartialEq, Eq)]
pub struct ListBranchesResponse {
    pub branches: Vec<BranchInfo>,
    pub current_branch: String,
}

/// The view of a [`ListBranchesResponse`].
pub struct ListBranchesResponseView {
    pub branches: Seq<BranchInfoView>,
    pub current_branch: Seq<char>,
}

impl View for ListBranchesResponse {
    type V = ListBranchesResponseView;

    open spec fn view(&self) -> ListBranchesResponseView {
        ListBranchesResponseView {
            branches: self.branches.deep_view(),
            current_branch: self.current_branch@,
        }
    }
}

impl DeepView for ListBranchesResponse {
    type V = ListBranchesResponseView;

    open spec fn deep_view(&self) -> ListBranchesResponseView {
        self@
    }
}

/// Asks to switch to another branch.
#[derive(Debug, Clone, PartialEq, Eq)]
pub struct SwitchBranchRequest {
    pub branch: String,
}

/// The view of a [`SwitchBranchRequest`].
pub struct SwitchBranchRequestView {
    pub branch: Seq<char>,
}

impl View for SwitchBranchRequest {
    type V = SwitchBranchRequestView;

    open spec fn view(&self) -> SwitchBranchRequestView {
        SwitchBranchRequestView {
            branch: self.branch@,
        }
    }
}

impl DeepView for SwitchBranchRequest {
    type V = SwitchBranchRequestView;

    open spec fn deep_view(&self) -> SwitchBranchRequestView {
        self@
    }
}

/// What became of a switch of branches.
#[derive(Debug, Clone, PartialEq, Eq)]
pub struct SwitchBranchResponse {
    pub success: bool,
    pub branch: String,
    pub message: String,
    /// Whether local changes were stashed and restored.
    pub stashed: bool,
}

/// The view of a [`SwitchBranchResponse`].
pub struct SwitchBranchResponseView {
    pub success: bool,
    pub branch: Seq<char>,
    pub message: Seq<char>,
    pub stashed: bool,
}

impl View for SwitchBranchResponse {
    type V = SwitchBranchResponseView;

    open spec fn view(&self) -> SwitchBranchResponseView {
        SwitchBranchResponseView {
            success: self.success,
            branch: self.branch@,
            message: self.message@,
            stashed: self.stashed,
        }
    }
}

impl DeepView for SwitchBranchResponse {
    type V = SwitchBranchResponseView;

    open spec fn deep_view(&self) -> SwitchBranchResponseView {
        self@
    }
}

/// How the documents branch stands against its remote.
#[derive(Debug, Clone, PartialEq, Eq)]
pub struct SyncStatusResponse {
    /// Local commits that the remote lacks.
    pub commits_ahead: usize,
    /// Remote commits that the local branch lacks.
    pub commits_behind: usize,
    /// Whether synchronisation is possible now.
    pub can_sync: bool,
    /// Whether a rebase has to come before a push.
    pub needs_rebase: bool,
    pub current_branch: String,
    /// Why synchronisation is not possible.
    pub error: Option<String>,
}

/// The view of a [`SyncStatusResponse`].
pub struct SyncStatusResponseView {
    pub commits_ahead: usize,
    pub commits_behind: usize,
    pub can_sync: bool,
    pub needs_rebase: bool,
    pub current_branch: Seq<char>,
    pub error: Option<Seq<char>>,
}

impl View for SyncStatusResponse {
    type V = SyncStatusResponseView;

    open spec fn view(&self) -> SyncStatusResponseView {
        SyncStatusResponseView {
            commits_ahead: self.commits_ahead,
            commits_behind: self.commits_behind,
            can_sync: self.can_sync,
            needs_rebase: self.needs_rebase,
            current_branch: self.current_branch@,
            error: self.error.deep_view(),
        }
    }
}

impl DeepView for SyncStatusResponse {
    type V = SyncStatusResponseView;

    open spec fn deep_view(&self) -> SyncStatusResponseView {
        self@
    }
}

/// Asks to synchronise the documents branch with its remote.
#[derive(Debug, Clone, Copy, PartialEq, Eq, Structural)]
pub struct SyncRequest {
    /// Whether to rebase first when the remote is ahead.
    pub allow_rebase: bool,
}

/// What became of a synchronisation.
#[derive(Debug, Clone, PartialEq, Eq)]
pub struct SyncResponse {
    pub success: bool,
    pub commits_pushed: usize,
    pub message: String,
    /// Whether a rebase was made.
    pub rebased: bool,
}

/// The view of a [`SyncResponse`].
pub struct SyncResponseView {
    pub success: bool,
    pub commits_pushed: usize,
    pub message: Seq<char>,
    pub rebased: bool,
}

impl View for SyncResponse {
    type V = SyncResponseView;

    open spec fn view(&self) -> SyncResponseView {
        SyncResponseView {
            success: self.success,
            commits_pushed: self.commits_pushed,
            message: self.message@,
            rebased: self.rebased,
        }
    }
}

impl DeepView for SyncResponse {
    type V = SyncResponseView;

    open spec fn deep_view(&self) -> SyncResponseView {
        self@
    }
}

} // verus!
