//! Deciding how a request is answered. The file system is consulted by the
//! caller; the outcome is handed back here.

use vstd::prelude::*;
use vstd::string::{StringExecFns, StrSliceExecFns};
use vstd::utf8::encode_utf8;
use crate::error::HttpError;
use crate::headers::{HeaderMap, HeaderPair};
use crate::request::{HttpRequest, RequestMethod};
use crate::response::HttpResponse;
use crate::status::{HttpStatus, decimal3};

verus! {

/// Configuration shared by every connection: the served directory and the
/// header fields sent with every file.
pub struct ServerContext {
    root: String,
    default_headers: HeaderMap,
}

impl ServerContext {
    pub closed spec fn spec_root(&self) -> Seq<char> {
        self.root@
    }

    pub closed spec fn spec_default_headers(&self) -> Seq<HeaderPair> {
        self.default_headers.pairs()
    }

    pub fn new(root: String, default_headers: HeaderMap) -> (r: ServerContext)
        ensures
            r.spec_root() == root@,
            r.spec_default_headers() == default_headers.pairs(),
    {
        ServerContext { root, default_headers }
    }

    /// The directory that files are served from.
    pub fn root_dir(&self) -> (r: &String)
        ensures
            r@ == self.spec_root(),
    {
        &self.root
    }

    /// The header fields sent with every file.
    pub fn default_headers(&self) -> (r: &HeaderMap)
        ensures
            r.pairs() == self.spec_default_headers(),
    {
        &self.default_headers
    }
}

/// `s` without the slashes it starts with.
pub open spec fn strip_slashes(s: Seq<char>) -> Seq<char>
    decreases s.len(),
{
    if s.len() > 0 && s[0] == '/' {
        strip_slashes(s.drop_first())
    } else {
        s
    }
}

/// The path, relative to the served directory, that a target names: `/` is
/// the index page, and leading slashes are dropped so that the path cannot
/// leave the directory.
pub open spec fn relative_path(uri: Seq<char>) -> Seq<char> {
    if uri == "/"@ {
        "index.html"@
    } else {
        strip_slashes(uri)
    }
}

/// The path, relative to the served directory, of the file a target names.
pub fn uri_path(uri: &str) -> (r: String)
    ensures
        r@ == relative_path(uri@),
{
    let n = uri.unicode_len();
    proof {
        reveal_strlit("/");
    }
    if n == 1 && uri.get_char(0) == '/' {
        assert(uri@ =~= "/"@);
        return String::from_str("index.html");
    }
    assert(uri@ != "/"@);
    let mut i: usize = 0;
    assert(uri@.skip(0) =~= uri@);
    while i < n && uri.get_char(i) == '/'
        invariant
            i <= n == uri@.len(),
            strip_slashes(uri@) == strip_slashes(uri@.skip(i as int)),
        decreases n - i,
    {
        assert(uri@.skip(i as int).drop_first() =~= uri@.skip(i + 1));
        i = i + 1;
    }
    uri.substring_char(i, n).to_owned()
}

/// What the caller must find out from the file system before a request can
/// be answered.
#[derive(Debug)]
pub enum FileWork {
    /// Read the file at this relative path.
    Read(String),
    /// Find out whether a file exists at this relative path.
    Check(String),
    /// Nothing.
    Nothing,
}

/// What the file system said.
#[derive(Debug)]
pub enum FileLookup {
    /// No file is there.
    Missing,
    /// The file is there; its contents, when they were asked for.
    Found(Vec<u8>),
    /// The file system failed.
    Failed(std::io::Error),
}

/// The file-system work a request needs: GET reads its file, HEAD checks
/// that it exists, POST needs none.
pub fn file_work(request: &HttpRequest) -> (r: FileWork)
    ensures
        match request.spec_method() {
            RequestMethod::Get => r matches FileWork::Read(p) && p@ == relative_path(
                request.spec_uri(),
            ),
            RequestMethod::Head => r matches FileWork::Check(p) && p@ == relative_path(
                request.spec_uri(),
            ),
            RequestMethod::Post => r is Nothing,
        },
{
    match request.method() {
        RequestMethod::Get => FileWork::Read(uri_path(request.uri())),
        RequestMethod::Head => FileWork::Check(uri_path(request.uri())),
        RequestMethod::Post => FileWork::Nothing,
    }
}

/// The failure a lookup reports, if any.
fn lookup_error(request: &HttpRequest, lookup: FileLookup) -> (r: Result<Vec<u8>, HttpError>)
    ensures
        match lookup {
            FileLookup::Missing => r matches Err(HttpError::NotFound(u)) && u@ == request.spec_uri(),
            FileLookup::Found(b) => r matches Ok(rb) && rb@ == b@,
            FileLookup::Failed(e) => r matches Err(HttpError::IoError { inner, context }) && inner
                == e && context@.len() == 0,
        },
{
    match lookup {
        FileLookup::Missing => Err(HttpError::NotFound(request.uri().to_owned())),
        FileLookup::Found(b) => Ok(b),
        FileLookup::Failed(e) => Err(HttpError::from_io(e)),
    }
}

/// Answers a GET: the file's contents, with the default header fields.
pub fn serve_file(ctx: &ServerContext, request: &HttpRequest, lookup: FileLookup) -> (r: Result<
    HttpResponse,
    HttpError,
>)
    ensures
        match lookup {
            FileLookup::Missing => r matches Err(HttpError::NotFound(u)) && u@ == request.spec_uri(),
            FileLookup::Found(b) => r matches Ok(resp) && resp.status == HttpStatus::OK
                && resp.headers.pairs() == ctx.spec_default_headers() && resp.body@ == b@,
            FileLookup::Failed(e) => r matches Err(HttpError::IoError { inner, context }) && inner
                == e && context@.len() == 0,
        },
{
    let body = lookup_error(request, lookup)?;
    Ok(HttpResponse { status: HttpStatus::OK, headers: ctx.default_headers().clone(), body })
}

/// Answers a HEAD: the default header fields and no body.
pub fn serve_file_headers(ctx: &ServerContext, request: &HttpRequest, lookup: FileLookup) -> (r:
    Result<HttpResponse, HttpError>)
    ensures
        match lookup {
            FileLookup::Missing => r matches Err(HttpError::NotFound(u)) && u@ == request.spec_uri(),
            FileLookup::Found(_) => r matches Ok(resp) && resp.status == HttpStatus::OK
                && resp.headers.pairs() == ctx.spec_default_headers() && resp.body@.len() == 0,
            FileLookup::Failed(e) => r matches Err(HttpError::IoError { inner, context }) && inner
                == e && context@.len() == 0,
        },
{
    let _ = lookup_error(request, lookup)?;
    let headers = ctx.default_headers().clone();
    Ok(HttpResponse { status: HttpStatus::OK, headers, body: Vec::new() })
}

/// The body that reports a missing resource.
pub open spec fn not_found_body(uri: Seq<char>) -> Seq<u8> {
    encode_utf8(decimal3(HttpStatus::NotFound.spec_code()) + ": "@ + uri + " not found"@)
}

/// The body that reports an unsupported method.
pub open spec fn not_implemented_body() -> Seq<u8> {
    encode_utf8(decimal3(HttpStatus::NotImplemented.spec_code()) + ": "@ + "resource or method not implemented"@)
}

/// Answers a request, given what the file system said about the work that
/// `file_work` asked for (ignored for POST).
pub fn handle_request(ctx: &ServerContext, request: &HttpRequest, lookup: FileLookup) -> (r:
    HttpResponse)
    ensures
        request.spec_method() == RequestMethod::Post ==> r.status == HttpStatus::NotImplemented
            && r.headers.pairs().len() == 0 && r.body@ == not_implemented_body(),
        request.spec_method() != RequestMethod::Post ==> match lookup {
            FileLookup::Missing => r.status == HttpStatus::NotFound && r.headers.pairs().len() == 0
                && r.body@ == not_found_body(request.spec_uri()),
            FileLookup::Found(b) => r.status == HttpStatus::OK && r.headers.pairs()
                == ctx.spec_default_headers() && r.body@ == (if request.spec_method()
                == RequestMethod::Get {
                b@
            } else {
                Seq::<u8>::empty()
            }),
            FileLookup::Failed(_) => r.status == HttpStatus::InternalError
                && r.headers.pairs().len() == 0 && exists|t: Seq<char>| r.body@ == encode_utf8(
                decimal3(HttpStatus::InternalError.spec_code()) + ": "@ + t,
            ),
        },
{
    let result = match request.method() {
        RequestMethod::Get => serve_file(ctx, request, lookup),
        RequestMethod::Head => serve_file_headers(ctx, request, lookup),
        RequestMethod::Post => Err(HttpError::NotImplemented),
    };
    match result {
        Ok(response) => response,
        Err(err) => err.into_response(),
    }
}

} // verus!
