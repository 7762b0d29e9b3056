//! The fixed set of status codes this server can emit.

use vstd::prelude::*;

verus! {

/// A supported HTTP status, each with a numeric code and a reason phrase.
#[derive(Debug, Clone, Copy, PartialEq, Eq, Structural)]
pub enum HttpStatus {
    OK,
    Created,
    Accepted,
    NoContent,
    MovedPermanently,
    MovedTemporarily,
    NotModified,
    BadRequest,
    Unauthorized,
    Forbidden,
    NotFound,
    InternalError,
    NotImplemented,
    BadGateway,
    ServiceUnavailable,
}

impl HttpStatus {
    /// The numeric code of a status.
    pub open spec fn spec_code(self) -> u16 {
        match self {
            HttpStatus::OK => 200,
            HttpStatus::Created => 201,
            HttpStatus::Accepted => 202,
            HttpStatus::NoContent => 204,
            HttpStatus::MovedPermanently => 301,
            HttpStatus::MovedTemporarily => 302,
            HttpStatus::NotModified => 304,
            HttpStatus::BadRequest => 400,
            HttpStatus::Unauthorized => 401,
            HttpStatus::Forbidden => 403,
            HttpStatus::NotFound => 404,
            HttpStatus::InternalError => 500,
            HttpStatus::NotImplemented => 501,
            HttpStatus::BadGateway => 502,
            HttpStatus::ServiceUnavailable => 503,
        }
    }

    /// The reason phrase of a status.
    pub open spec fn spec_name(self) -> Seq<char> {
        match self {
            HttpStatus::OK => "Ok"@,
            HttpStatus::Created => "Created"@,
            HttpStatus::Accepted => "Accepted"@,
            HttpStatus::NoContent => "No Content"@,
            HttpStatus::MovedPermanently => "Moved Permanently"@,
            HttpStatus::MovedTemporarily => "Moved Temporarily"@,
            HttpStatus::NotModified => "Not Modified"@,
            HttpStatus::BadRequest => "Bad Request"@,
            HttpStatus::Unauthorized => "Unauthorized"@,
            HttpStatus::Forbidden => "Forbidden"@,
            HttpStatus::NotFound => "Not Found"@,
            HttpStatus::InternalError => "Internal Server Error"@,
            HttpStatus::NotImplemented => "Not Implemented"@,
            HttpStatus::BadGateway => "Bad Gateway"@,
            HttpStatus::ServiceUnavailable => "Service Unavailable"@,
        }
    }

    /// The numeric status code.
    pub fn code(&self) -> (r: u16)
        ensures
            r == self.spec_code(),
            100 <= r <= 999,
    {
        match self {
            HttpStatus::OK => 200,
            HttpStatus::Created => 201,
            HttpStatus::Accepted => 202,
            HttpStatus::NoContent => 204,
            HttpStatus::MovedPermanently => 301,
            HttpStatus::MovedTemporarily => 302,
            HttpStatus::NotModified => 304,
            HttpStatus::BadRequest => 400,
            HttpStatus::Unauthorized => 401,
            HttpStatus::Forbidden => 403,
            HttpStatus::NotFound => 404,
            HttpStatus::InternalError => 500,
            HttpStatus::NotImplemented => 501,
            HttpStatus::BadGateway => 502,
            HttpStatus::ServiceUnavailable => 503,
        }
    }

    /// The canonical reason phrase.
    pub fn name(&self) -> (r: &'static str)
        ensures
            r@ == self.spec_name(),
    {
        match self {
            HttpStatus::OK => "Ok",
            HttpStatus::Created => "Created",
            HttpStatus::Accepted => "Accepted",
            HttpStatus::NoContent => "No Content",
            HttpStatus::MovedPermanently => "Moved Permanently",
            HttpStatus::MovedTemporarily => "Moved Temporarily",
            HttpStatus::NotModified => "Not Modified",
            HttpStatus::BadRequest => "Bad Request",
            HttpStatus::Unauthorized => "Unauthorized",
            HttpStatus::Forbidden => "Forbidden",
            HttpStatus::NotFound => "Not Found",
            HttpStatus::InternalError => "Internal Server Error",
            HttpStatus::NotImplemented => "Not Implemented",
            HttpStatus::BadGateway => "Bad Gateway",
            HttpStatus::ServiceUnavailable => "Service Unavailable",
        }
    }
}

/// The character of a decimal digit.
pub open spec fn digit_char(d: int) -> char {
    if d == 0 {
        '0'
    } else if d == 1 {
        '1'
    } else if d == 2 {
        '2'
    } else if d == 3 {
        '3'
    } else if d == 4 {
        '4'
    } else if d == 5 {
        '5'
    } else if d == 6 {
        '6'
    } else if d == 7 {
        '7'
    } else if d == 8 {
        '8'
    } else {
        '9'
    }
}

/// A three-digit number written in decimal.
pub open spec fn decimal3(code: u16) -> Seq<char> {
    let n = code as int;
    seq![digit_char(n / 100), digit_char((n / 10) % 10), digit_char(n % 10)]
}

impl HttpStatus {
    /// The numeric status code written in decimal.
    pub fn code_text(&self) -> (r: &'static str)
        ensures
            r@ == decimal3(self.spec_code()),
    {
        proof {
            reveal_strlit("200");
            reveal_strlit("201");
            reveal_strlit("202");
            reveal_strlit("204");
            reveal_strlit("301");
            reveal_strlit("302");
            reveal_strlit("304");
            reveal_strlit("400");
            reveal_strlit("401");
            reveal_strlit("403");
            reveal_strlit("404");
            reveal_strlit("500");
            reveal_strlit("501");
            reveal_strlit("502");
            reveal_strlit("503");
        }
        match self {
            HttpStatus::OK => "200",
            HttpStatus::Created => "201",
            HttpStatus::Accepted => "202",
            HttpStatus::NoContent => "204",
            HttpStatus::MovedPermanently => "301",
            HttpStatus::MovedTemporarily => "302",
            HttpStatus::NotModified => "304",
            HttpStatus::BadRequest => "400",
            HttpStatus::Unauthorized => "401",
            HttpStatus::Forbidden => "403",
            HttpStatus::NotFound => "404",
            HttpStatus::InternalError => "500",
            HttpStatus::NotImplemented => "501",
            HttpStatus::BadGateway => "502",
            HttpStatus::ServiceUnavailable => "503",
        }
    }
}

impl Default for HttpStatus {
    /// A response that names no status is a success.
    fn default() -> (r: HttpStatus)
        ensures
            r == HttpStatus::OK,
    {
        HttpStatus::OK
    }
}

} // verus!
