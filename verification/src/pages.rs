use vstd::prelude::*;
use vstd::string::StringSliceAdditionalSpecFns;

verus! {

// Status lines, as the characters of the wire status line.
pub open spec fn st_ok() -> Seq<char> {
    ("HTTP/1.1 200 OK")@
}

pub fn ok_line() -> (r: &'static str)
    ensures
        r@ == st_ok(),
{
    "HTTP/1.1 200 OK"
}

pub open spec fn st_not_found() -> Seq<char> {
    ("HTTP/1.1 404 NOT FOUND")@
}

pub fn not_found_line() -> (r: &'static str)
    ensures
        r@ == st_not_found(),
{
    "HTTP/1.1 404 NOT FOUND"
}

pub open spec fn st_bad_request() -> Seq<char> {
    ("HTTP/1.1 400 Bad Request")@
}

pub fn bad_request_line() -> (r: &'static str)
    ensures
        r@ == st_bad_request(),
{
    "HTTP/1.1 400 Bad Request"
}

pub open spec fn st_method_not_allowed() -> Seq<char> {
    ("HTTP/1.1 405 Method Not Allowed")@
}

pub fn method_not_allowed_line() -> (r: &'static str)
    ensures
        r@ == st_method_not_allowed(),
{
    "HTTP/1.1 405 Method Not Allowed"
}

pub open spec fn st_forbidden() -> Seq<char> {
    ("HTTP/1.1 403 Forbidden")@
}

pub fn forbidden_line() -> (r: &'static str)
    ensures
        r@ == st_forbidden(),
{
    "HTTP/1.1 403 Forbidden"
}

pub open spec fn st_server_error() -> Seq<char> {
    ("HTTP/1.1 500 Internal Server Error")@
}

pub fn server_error_line() -> (r: &'static str)
    ensures
        r@ == st_server_error(),
{
    "HTTP/1.1 500 Internal Server Error"
}

// Content types.
pub open spec fn ct_html() -> Seq<char> {
    ("text/html")@
}

pub fn html_content_type() -> (r: &'static str)
    ensures
        r@ == ct_html(),
{
    "text/html"
}

pub open spec fn ct_plain() -> Seq<char> {
    ("text/plain")@
}

pub fn plain_content_type() -> (r: &'static str)
    ensures
        r@ == ct_plain(),
{
    "text/plain"
}

// Builtin page bodies, as the bytes that are sent.
pub open spec fn home_html() -> Seq<u8> {
    ("<html><body>
                    <h1>Welcome to Tokio Async Server</h1>
                    <p>This is a simple async HTTP server built with Tokio.</p>
                    <ul>
                        <li><a href='/'>Home</a></li>
                        <li><a href='/about'>About</a></li>
                        <li><a href='/files/index.html'>Static File Example</a></li>
                        <li><a href='/files/'>Files Directory</a></li>
                    </ul>
                </body></html>").spec_bytes()
}

pub fn home_page() -> (r: &'static str)
    ensures
        r.spec_bytes() == home_html(),
{
    "<html><body>
                    <h1>Welcome to Tokio Async Server</h1>
                    <p>This is a simple async HTTP server built with Tokio.</p>
                    <ul>
                        <li><a href='/'>Home</a></li>
                        <li><a href='/about'>About</a></li>
                        <li><a href='/files/index.html'>Static File Example</a></li>
                        <li><a href='/files/'>Files Directory</a></li>
                    </ul>
                </body></html>"
}

pub open spec fn about_html() -> Seq<u8> {
    ("<html><body>
                    <h1>About This Server</h1>
                    <p>This is a demonstration of asynchronous programming in Rust using Tokio.</p>
                    <p><a href='/'>Back to home</a></p>
                </body></html>").spec_bytes()
}

pub fn about_page() -> (r: &'static str)
    ensures
        r.spec_bytes() == about_html(),
{
    "<html><body>
                    <h1>About This Server</h1>
                    <p>This is a demonstration of asynchronous programming in Rust using Tokio.</p>
                    <p><a href='/'>Back to home</a></p>
                </body></html>"
}

pub open spec fn not_found_html() -> Seq<u8> {
    ("<html><body>
                    <h1>404: Page not found</h1>
                    <p>The requested resource could not be found.</p>
                    <p><a href='/'>Back to home</a></p>
                </body></html>").spec_bytes()
}

pub fn not_found_page() -> (r: &'static str)
    ensures
        r.spec_bytes() == not_found_html(),
{
    "<html><body>
                    <h1>404: Page not found</h1>
                    <p>The requested resource could not be found.</p>
                    <p><a href='/'>Back to home</a></p>
                </body></html>"
}

pub open spec fn forbidden_html() -> Seq<u8> {
    ("<html><body><h1>403 Forbidden</h1><p>Access denied.</p></body></html>").spec_bytes()
}

pub fn forbidden_page() -> (r: &'static str)
    ensures
        r.spec_bytes() == forbidden_html(),
{
    "<html><body><h1>403 Forbidden</h1><p>Access denied.</p></body></html>"
}

pub open spec fn file_not_found_html() -> Seq<u8> {
    ("<html><body><h1>404 Not Found</h1><p>The requested file could not be found.</p></body></html>").spec_bytes()
}

pub fn file_not_found_page() -> (r: &'static str)
    ensures
        r.spec_bytes() == file_not_found_html(),
{
    "<html><body><h1>404 Not Found</h1><p>The requested file could not be found.</p></body></html>"
}

pub open spec fn server_error_html() -> Seq<u8> {
    ("<html><body><h1>500 Internal Server Error</h1><p>Could not read directory.</p></body></html>").spec_bytes()
}

pub fn server_error_page() -> (r: &'static str)
    ensures
        r.spec_bytes() == server_error_html(),
{
    "<html><body><h1>500 Internal Server Error</h1><p>Could not read directory.</p></body></html>"
}

// Fixed bodies of the two parse-failure responses.
pub open spec fn incomplete_text() -> Seq<u8> {
    ("Incomplete request received").spec_bytes()
}

pub fn incomplete_body() -> (r: &'static str)
    ensures
        r.spec_bytes() == incomplete_text(),
{
    "Incomplete request received"
}

pub open spec fn malformed_text() -> Seq<u8> {
    ("Malformed HTTP request").spec_bytes()
}

pub fn malformed_body() -> (r: &'static str)
    ensures
        r.spec_bytes() == malformed_text(),
{
    "Malformed HTTP request"
}

} // verus!
