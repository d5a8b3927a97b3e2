//! Serving the web client: where its favicon lives and when the single-page
//! shell answers a request.
use vstd::prelude::*;
use vstd::string::*;

verus! {

/// The route of the favicon.
pub const FAVICON: &'static str = "/favicon.ico";
/// The route of the client's bundled assets.
pub const ASSETS: &'static str = "/assets";
/// The route of the client's build directory.
pub const DIST: &'static str = "/dist";

/// The favicon's path under the assets route.
pub fn relative_favicon_path() -> (r: String)
    ensures
        r@ == ASSETS@ + FAVICON@,
{
    let mut path = String::from_str(ASSETS);
    path.append(FAVICON);
    path
}

/// The status code of a missing file.
pub const NOT_FOUND: u16 = 404;

/// Whether the client shell (`index.html`) answers a request: exactly when
/// no file of the client's build matched it, so deep links still load the
/// client while real root files are served as they are.
pub fn serve_client_shell(file_status: u16) -> (r: bool)
    ensures
        r == (file_status == NOT_FOUND),
{
    file_status == NOT_FOUND
}

/// Where a book's thumbnail is taken from, in the order they are tried.
#[derive(Debug, Clone, Copy, PartialEq, Eq, Structural)]
pub enum ThumbnailSource {
    /// The thumbnail file recorded for the book.
    Saved,
    /// A thumbnail generated earlier into the thumbnails directory.
    Generated,
    /// The book's first page, rendered on the fly (without prerendering
    /// further PDF pages).
    FirstPage,
}

/// The first source to try: the recorded file when the book has one.
pub fn first_thumbnail_source(has_saved_path: bool) -> (r: ThumbnailSource)
    ensures
        r == if has_saved_path {
            ThumbnailSource::Saved
        } else {
            ThumbnailSource::Generated
        },
{
    if has_saved_path {
        ThumbnailSource::Saved
    } else {
        ThumbnailSource::Generated
    }
}

/// The source to try after `tried` came back empty (a missing or unreadable
/// recorded file is not an error); none after the first page, whose failure
/// is the request's error.
pub fn next_thumbnail_source(tried: ThumbnailSource) -> (r: Option<ThumbnailSource>)
    ensures
        tried == ThumbnailSource::Saved ==> r == Some(ThumbnailSource::Generated),
        tried == ThumbnailSource::Generated ==> r == Some(ThumbnailSource::FirstPage),
        tried == ThumbnailSource::FirstPage ==> r is None,
{
    match tried {
        ThumbnailSource::Saved => Some(ThumbnailSource::Generated),
        ThumbnailSource::Generated => Some(ThumbnailSource::FirstPage),
        ThumbnailSource::FirstPage => None,
    }
}

/// An error answer of the API.
#[derive(Debug, PartialEq, Eq)]
pub enum ApiError {
    NotFound(String),
    BadRequest(String),
    InternalServerError(String),
}

/// The answer to a page that could not be read: a page without an image is
/// not found; any other failure is an internal error carrying its message.
pub fn page_error(no_image: bool, message: String) -> (r: ApiError)
    ensures
        no_image ==> (r matches ApiError::NotFound(m) && m@ == "Page not found"@),
        !no_image ==> (r matches ApiError::InternalServerError(m) && m@ == message@),
{
    if no_image {
        ApiError::NotFound(String::from_str("Page not found"))
    } else {
        ApiError::InternalServerError(message)
    }
}

} // verus!
