use vstd::prelude::*;
use crate::permissions::{authorizes, PermissionStore};

verus! {

/// One entry of a directory listing.
pub struct FileInfo {
    pub name: String,
    pub path: String,
    pub is_directory: bool,
    pub size: u64,
    pub modified: u64,
}

impl FileInfo {
    /// An entry from what the filesystem reported; a modification time that
    /// could not be read counts as zero.
    pub fn from_metadata(
        name: String,
        path: String,
        is_directory: bool,
        size: u64,
        modified: Option<u64>,
    ) -> (r: FileInfo)
        ensures
            r.name@ == name@,
            r.path@ == path@,
            r.is_directory == is_directory,
            r.size == size,
            r.modified == match modified {
                Some(t) => t,
                None => 0,
            },
    {
        let modified: u64 = match modified {
            Some(t) => t,
            None => 0,
        };
        FileInfo { name, path, is_directory, size, modified }
    }
}

/// Why a file operation failed.
pub enum FileError {
    /// A path lies outside every granted root; the text says which operation.
    AccessDenied(String),
    /// The target of a creation exists already.
    AlreadyExists,
    /// The filesystem refused; the text says what failed.
    Io(String),
}

/// The text that explains `e`.
pub open spec fn error_text(e: FileError) -> Seq<char> {
    match e {
        FileError::AccessDenied(m) => m@,
        FileError::AlreadyExists => "File already exists"@,
        FileError::Io(m) => m@,
    }
}

impl FileError {
    /// The text that explains this failure.
    pub fn message(&self) -> (r: String)
        ensures
            r@ == error_text(*self),
    {
        match self {
            FileError::AccessDenied(m) => m.clone(),
            FileError::AlreadyExists => "File already exists".to_owned(),
            FileError::Io(m) => m.clone(),
        }
    }
}

/// A request to the filesystem, in the plain terms of its paths.
pub enum FileRequest {
    List { path: String },
    Read { path: String },
    Write { path: String, content: String },
    Create { path: String, content: String },
    Delete { path: String },
    Move { src: String, dest: String },
}

/// A file request in plain values.
pub enum RequestView {
    List(Seq<char>),
    Read(Seq<char>),
    Write(Seq<char>, Seq<char>),
    Create(Seq<char>, Seq<char>),
    Delete(Seq<char>),
    Move(Seq<char>, Seq<char>),
}

impl View for FileRequest {
    type V = RequestView;

    open spec fn view(&self) -> RequestView {
        match self {
            FileRequest::List { path } => RequestView::List(path@),
            FileRequest::Read { path } => RequestView::Read(path@),
            FileRequest::Write { path, content } => RequestView::Write(path@, content@),
            FileRequest::Create { path, content } => RequestView::Create(path@, content@),
            FileRequest::Delete { path } => RequestView::Delete(path@),
            FileRequest::Move { src, dest } => RequestView::Move(src@, dest@),
        }
    }
}

/// Every path of the request lies under a granted root.
pub open spec fn request_allowed(grants: Seq<crate::permissions::GrantView>, req: RequestView) -> bool {
    match req {
        RequestView::List(path) => authorizes(grants, path),
        RequestView::Read(path) => authorizes(grants, path),
        RequestView::Write(path, _) => authorizes(grants, path),
        RequestView::Create(path, _) => authorizes(grants, path),
        RequestView::Delete(path) => authorizes(grants, path),
        RequestView::Move(src, dest) => authorizes(grants, src) && authorizes(grants, dest),
    }
}

/// The explanation given when the request is refused.
pub open spec fn denial_text(req: RequestView) -> Seq<char> {
    match req {
        RequestView::List(_) => "Access denied: folder not in granted permissions"@,
        RequestView::Read(_) => "Access denied: file not in granted folder"@,
        RequestView::Write(..) => "Access denied: file not in granted folder"@,
        RequestView::Create(..) => "Access denied: location not in granted folder"@,
        RequestView::Delete(_) => "Access denied: file not in granted folder"@,
        RequestView::Move(..) => "Access denied: source or destination not in granted folder"@,
    }
}

fn denial(req: &FileRequest) -> (r: String)
    ensures
        r@ == denial_text(req@),
{
    match req {
        FileRequest::List { .. } => "Access denied: folder not in granted permissions".to_owned(),
        FileRequest::Read { .. } => "Access denied: file not in granted folder".to_owned(),
        FileRequest::Write { .. } => "Access denied: file not in granted folder".to_owned(),
        FileRequest::Create { .. } => "Access denied: location not in granted folder".to_owned(),
        FileRequest::Delete { .. } => "Access denied: file not in granted folder".to_owned(),
        FileRequest::Move { .. } => "Access denied: source or destination not in granted folder".to_owned(),
    }
}

/// The access check in front of every file operation: it passes exactly when each
/// path of the request is authorized, and nothing is touched before it.
pub fn authorize(store: &PermissionStore, req: &FileRequest) -> (r: Result<(), FileError>)
    ensures
        r is Ok <==> request_allowed(store@, req@),
        r matches Err(e) ==> e is AccessDenied && error_text(e) == denial_text(req@),
{
    let allowed = match req {
        FileRequest::List { path } => store.is_path_allowed(path.as_str()),
        FileRequest::Read { path } => store.is_path_allowed(path.as_str()),
        FileRequest::Write { path, .. } => store.is_path_allowed(path.as_str()),
        FileRequest::Create { path, .. } => store.is_path_allowed(path.as_str()),
        FileRequest::Delete { path } => store.is_path_allowed(path.as_str()),
        FileRequest::Move { src, dest } => store.is_path_allowed(src.as_str())
            && store.is_path_allowed(dest.as_str()),
    };
    if allowed {
        Ok(())
    } else {
        Err(FileError::AccessDenied(denial(req)))
    }
}

/// The rule of creation once access is granted: a target that exists
/// already is refused, and then nothing is written.
pub fn check_new_target(exists: bool) -> (r: Result<(), FileError>)
    ensures
        r is Ok <==> !exists,
        r matches Err(e) ==> e is AlreadyExists,
{
    if exists {
        Err(FileError::AlreadyExists)
    } else {
        Ok(())
    }
}

} // verus!
