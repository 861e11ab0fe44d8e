use vstd::prelude::*;

verus! {

/// The status codes a response can carry.
#[derive(Debug, PartialEq, Eq, Structural, Clone, Copy)]
pub enum StatusCode {
    OK,
    BadRequest,
    NotFound,
}

/// The numeric value of a status code.
pub open spec fn code_of(s: StatusCode) -> u16 {
    match s {
        StatusCode::OK => 200,
        StatusCode::BadRequest => 400,
        StatusCode::NotFound => 404,
    }
}

/// The decimal digits of a status code, as sent on the wire.
pub open spec fn code_digits(s: StatusCode) -> Seq<char> {
    match s {
        StatusCode::OK => seq!['2', '0', '0'],
        StatusCode::BadRequest => seq!['4', '0', '0'],
        StatusCode::NotFound => seq!['4', '0', '4'],
    }
}

/// The reason phrase that follows the numeric code.
pub open spec fn reason_of(s: StatusCode) -> Seq<char> {
    match s {
        StatusCode::OK => seq!['O', 'K'],
        StatusCode::BadRequest => seq!['B', 'a', 'd', ' ', 'R', 'e', 'q', 'u', 'e', 's', 't'],
        StatusCode::NotFound => seq!['N', 'o', 't', ' ', 'F', 'o', 'u', 'n', 'd'],
    }
}

impl StatusCode {
    /// The numeric status code.
    pub fn code(&self) -> (r: u16)
        ensures
            r == code_of(*self),
    {
        match self {
            StatusCode::OK => 200,
            StatusCode::BadRequest => 400,
            StatusCode::NotFound => 404,
        }
    }

    /// The numeric status code written out in decimal.
    pub fn code_text(&self) -> (r: &'static str)
        ensures
            r@ == code_digits(*self),
    {
        match self {
            StatusCode::OK => {
                proof {
                    reveal_strlit("200");
                }
                "200"
            },
            StatusCode::BadRequest => {
                proof {
                    reveal_strlit("400");
                }
                "400"
            },
            StatusCode::NotFound => {
                proof {
                    reveal_strlit("404");
                }
                "404"
            },
        }
    }

    /// The human-readable text that follows the code.
    pub fn reason_phrase(&self) -> (r: &'static str)
        ensures
            r@ == reason_of(*self),
    {
        match self {
            StatusCode::OK => {
                proof {
                    reveal_strlit("OK");
                }
                "OK"
            },
            StatusCode::BadRequest => {
                proof {
                    reveal_strlit("Bad Request");
                }
                "Bad Request"
            },
            StatusCode::NotFound => {
                proof {
                    reveal_strlit("Not Found");
                }
                "Not Found"
            },
        }
    }
}

} // verus!
