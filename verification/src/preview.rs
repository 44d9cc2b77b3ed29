//! The preview server: which file answers a request, and what the answer
//! says.

use crate::paths::{
    extension, extension_of, file_name, file_name_of, join, joined_path, parent, parent_of,
};
use crate::text::{
    chain, from_chars, opt_text, str_equal, strip_leading, to_chars, trim_start_matches,
};
use vstd::prelude::*;

verus! {

/// What a preview request asks for.
#[derive(Debug, Clone, PartialEq, Eq)]
pub enum Route {
    /// The generated document itself.
    Document,
    /// The file with this path relative to the document's directory.
    Asset(String),
}

/// What the file system gave for the file that a request resolves to.
#[derive(Debug, Clone, PartialEq, Eq)]
pub enum FileState {
    /// No regular file stands there.
    Absent,
    /// The bytes of the file as they are on disk now.
    Content(Vec<u8>),
    /// The file is there but could not be read; the description of the
    /// failure.
    Unreadable(String),
}

/// The body of a response.
#[derive(Debug, Clone, PartialEq, Eq)]
pub enum Body {
    Bytes(Vec<u8>),
    Text(String),
}

/// The answer to a preview request.
#[derive(Debug, Clone, PartialEq, Eq)]
pub struct Response {
    pub status: u16,
    pub content_type: String,
    pub body: Body,
}

/// Whether `route` is what `url` asks for: the path `/` asks for the
/// document, every other one for the file it names once its leading
/// slashes are gone.
pub open spec fn is_route_of(route: Route, url: Seq<char>) -> bool {
    if url == "/"@ {
        route is Document
    } else {
        route matches Route::Asset(name) && name@ == strip_leading(url, "/"@)
    }
}

/// Decides what a request for `url` asks for.
pub fn route(url: &str) -> (r: Route)
    ensures
        is_route_of(r, url@),
{
    if str_equal(url, "/") {
        Route::Document
    } else {
        let chars = to_chars(url);
        let slash = to_chars("/");
        Route::Asset(from_chars(&trim_start_matches(&chars, &slash)))
    }
}

/// The directory that holds the file at `path`: the path without its final
/// component, or `.` where there is none.
pub open spec fn directory_of(path: Seq<char>) -> Seq<char> {
    match parent_of(path) {
        Some(dir) => dir,
        None => "."@,
    }
}

/// The name, relative to the document's directory, of the file that a
/// request for `url` is answered from: the document's own name for `/`,
/// which is empty where its path names no file; otherwise what the request
/// names.
pub open spec fn target_name_of(url: Seq<char>, document_name: Option<Seq<char>>) -> Seq<char> {
    if url == "/"@ {
        match document_name {
            Some(n) => n,
            None => Seq::empty(),
        }
    } else {
        strip_leading(url, "/"@)
    }
}

/// The file that a request for `url` is answered from, for a document
/// written to `html_path`: the document itself for `/`, and otherwise the
/// file that the request names, taken relative to the document's
/// directory. Nothing keeps the file inside that directory: a request that
/// climbs out of it with `..` resolves to where it points.
pub open spec fn resolved(url: Seq<char>, html_path: Seq<char>) -> Seq<char> {
    joined_path(directory_of(html_path), target_name_of(url, file_name_of(html_path)))
}

/// The name, relative to the document's directory, of the file that a
/// request for `url` is answered from. `document_name` is the file name of
/// the document, where its path names one.
pub fn target_name(url: &str, document_name: Option<String>) -> (r: String)
    ensures
        r@ == target_name_of(url@, opt_text(document_name)),
{
    match route(url) {
        Route::Document => match document_name {
            Some(n) => n,
            None => String::new(),
        },
        Route::Asset(name) => name,
    }
}

/// The directory of the document, from the parent of its path: `.` where
/// the path has none.
pub fn directory(parent: Option<String>) -> (r: String)
    ensures
        r@ == match parent {
            Some(dir) => dir@,
            None => "."@,
        },
{
    match parent {
        Some(dir) => dir,
        None => ".".to_owned(),
    }
}

/// Resolves a request to the path of the file that answers it.
pub fn resolve_request(url: &str, html_path: &str) -> (r: String)
    ensures
        r@ == resolved(url@, html_path@),
{
    let dir = directory(parent(html_path));
    let name = target_name(url, file_name(html_path));
    join(dir.as_str(), name.as_str())
}

/// The content type of a file with the given extension.
pub open spec fn content_type_of(extension: Option<Seq<char>>) -> Seq<char> {
    match extension {
        Some(e) => if e == "html"@ {
            "text/html"@
        } else if e == "css"@ {
            "text/css"@
        } else if e == "js"@ {
            "application/javascript"@
        } else if e == "png"@ {
            "image/png"@
        } else if e == "jpg"@ || e == "jpeg"@ {
            "image/jpeg"@
        } else {
            "application/octet-stream"@
        },
        None => "application/octet-stream"@,
    }
}

/// The content type of a file with the given extension.
pub fn content_type_for(extension: &Option<String>) -> (r: String)
    ensures
        r@ == content_type_of(opt_text(*extension)),
{
    match extension {
        Some(e) => {
            let e = e.as_str();
            if str_equal(e, "html") {
                "text/html".to_owned()
            } else if str_equal(e, "css") {
                "text/css".to_owned()
            } else if str_equal(e, "js") {
                "application/javascript".to_owned()
            } else if str_equal(e, "png") {
                "image/png".to_owned()
            } else if str_equal(e, "jpg") || str_equal(e, "jpeg") {
                "image/jpeg".to_owned()
            } else {
                "application/octet-stream".to_owned()
            }
        },
        None => "application/octet-stream".to_owned(),
    }
}

/// The content type of the file at `path`, by its extension.
pub fn content_type(path: &str) -> (r: String)
    ensures
        r@ == content_type_of(extension_of(path@)),
{
    content_type_for(&extension(path))
}

/// Whether `r` answers a request that resolved to `path`, given what the
/// file system holds there now: the file's bytes with its content type;
/// not found where no regular file stands; a server error where the file
/// cannot be read.
pub open spec fn is_response_for(r: Response, path: Seq<char>, file: FileState) -> bool {
    match file {
        FileState::Content(bytes) => {
            &&& r.status == 200
            &&& r.content_type@ == content_type_of(extension_of(path))
            &&& r.body matches Body::Bytes(b) && b@ == bytes@
        },
        FileState::Absent => {
            &&& r.status == 404
            &&& r.content_type@ == "text/plain; charset=UTF-8"@
            &&& r.body matches Body::Text(t) && t@ == "404 Not Found"@
        },
        FileState::Unreadable(cause) => {
            &&& r.status == 500
            &&& r.content_type@ == "text/plain; charset=UTF-8"@
            &&& r.body matches Body::Text(t) && t@ == "Failed to read file: "@ + cause@
        },
    }
}

/// Answers a preview request that resolved to `path` from what the file
/// system holds there now. Nothing of an earlier request is kept.
pub fn respond(path: &str, file: FileState) -> (r: Response)
    ensures
        is_response_for(r, path@, file),
{
    match file {
        FileState::Content(bytes) => Response {
            status: 200,
            content_type: content_type(path),
            body: Body::Bytes(bytes),
        },
        FileState::Absent => Response {
            status: 404,
            content_type: "text/plain; charset=UTF-8".to_owned(),
            body: Body::Text("404 Not Found".to_owned()),
        },
        FileState::Unreadable(cause) => Response {
            status: 500,
            content_type: "text/plain; charset=UTF-8".to_owned(),
            body: Body::Text(chain("Failed to read file: ", cause.as_str())),
        },
    }
}

/// Answers a preview request for `url`, for a document written to
/// `html_path`. `read` looks at the file system: it takes the path that the
/// request resolves to and tells what stands there now. It is asked once for
/// every request, and the answer is made from what it tells this time.
pub fn handle_request<F>(url: &str, html_path: &str, read: F) -> (r: Response) where
    F: Fn(String) -> FileState,

    requires
        forall|path: String| read.requires((path,)),
    ensures
        exists|path: String, file: FileState|
            #![trigger read.ensures((path,), file)]
            path@ == resolved(url@, html_path@) && read.ensures((path,), file) && is_response_for(
                r,
                path@,
                file,
            ),
{
    let path = resolve_request(url, html_path);
    let target = path.clone();
    let file = read(path);
    let r = respond(target.as_str(), file);
    proof {
        assert(path@ == resolved(url@, html_path@) && read.ensures((path,), file)
            && is_response_for(r, path@, file));
    }
    r
}

/// The answer to a request depends only on the path and on what the file
/// system holds there at the time of the request: two answers from the same
/// bytes carry the same bytes, and an answer made from bytes carries
/// exactly those.
pub proof fn lemma_read_through(r1: Response, r2: Response, path: Seq<char>, bytes: Vec<u8>)
    requires
        is_response_for(r1, path, FileState::Content(bytes)),
        is_response_for(r2, path, FileState::Content(bytes)),
    ensures
        r1.status == 200 && r2.status == 200,
        r1.body matches Body::Bytes(b1) && r2.body matches Body::Bytes(b2) && b1@ == bytes@ && b2@
            == bytes@,
        r1.content_type@ == r2.content_type@,
{
}

} // verus!
