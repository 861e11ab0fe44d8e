use vstd::prelude::*;
use vstd::string::*;

use crate::scan::same_text;

verus! {

/// The request methods of HTTP/1.1.
#[derive(Debug, PartialEq, Eq, Structural, Clone, Copy)]
pub enum Method {
    GET,
    POST,
    PUT,
    DELETE,
    HEAD,
    CONNECT,
    OPTIONS,
    TRACE,
    PATCH,
}

/// The error for a token that names no method.
#[derive(Debug)]
pub struct MethodError {
    message: String,
}

/// The canonical (upper-case) name of a method.
pub open spec fn method_name(m: Method) -> Seq<char> {
    match m {
        Method::GET => seq!['G', 'E', 'T'],
        Method::POST => seq!['P', 'O', 'S', 'T'],
        Method::PUT => seq!['P', 'U', 'T'],
        Method::DELETE => seq!['D', 'E', 'L', 'E', 'T', 'E'],
        Method::HEAD => seq!['H', 'E', 'A', 'D'],
        Method::CONNECT => seq!['C', 'O', 'N', 'N', 'E', 'C', 'T'],
        Method::OPTIONS => seq!['O', 'P', 'T', 'I', 'O', 'N', 'S'],
        Method::TRACE => seq!['T', 'R', 'A', 'C', 'E'],
        Method::PATCH => seq!['P', 'A', 'T', 'C', 'H'],
    }
}

/// The message a `MethodError` carries.
pub open spec fn method_error_message() -> Seq<char> {
    seq![
        'I', 'n', 'v', 'a', 'l', 'i', 'd', ' ', 'H', 'T', 'T', 'P', ' ', 'm', 'e', 't', 'h', 'o',
        'd',
    ]
}

/// The upper-case form of a text, as `str::to_uppercase` gives it.
pub uninterp spec fn upper_of(s: Seq<char>) -> Seq<char>;

/// Relies on `str::to_uppercase`: the Unicode upper-case form depends on the characters
/// alone, and the empty text stays empty.
#[verifier::external_body]
fn to_upper(s: &str) -> (r: String)
    ensures
        r@ == upper_of(s@),
        s@.len() == 0 ==> r@.len() == 0,
{
    s.to_uppercase()
}

/// The method whose name is exactly `upper`, an upper-cased word.
pub open spec fn method_of(upper: Seq<char>) -> Option<Method> {
    if upper == method_name(Method::GET) {
        Some(Method::GET)
    } else if upper == method_name(Method::POST) {
        Some(Method::POST)
    } else if upper == method_name(Method::PUT) {
        Some(Method::PUT)
    } else if upper == method_name(Method::DELETE) {
        Some(Method::DELETE)
    } else if upper == method_name(Method::HEAD) {
        Some(Method::HEAD)
    } else if upper == method_name(Method::CONNECT) {
        Some(Method::CONNECT)
    } else if upper == method_name(Method::OPTIONS) {
        Some(Method::OPTIONS)
    } else if upper == method_name(Method::TRACE) {
        Some(Method::TRACE)
    } else if upper == method_name(Method::PATCH) {
        Some(Method::PATCH)
    } else {
        None
    }
}

/// The method a word names, compared after upper-casing it: `get`, `Get` and `GET` all
/// name GET. The word is taken whole: surrounding whitespace is not trimmed.
pub open spec fn method_of_word(word: Seq<char>) -> Option<Method> {
    method_of(upper_of(word))
}

impl Method {
    /// The canonical name of the method.
    pub fn as_str(&self) -> (r: &'static str)
        ensures
            r@ == method_name(*self),
    {
        match self {
            Method::GET => {
                proof {
                    reveal_strlit("GET");
                }
                "GET"
            },
            Method::POST => {
                proof {
                    reveal_strlit("POST");
                }
                "POST"
            },
            Method::PUT => {
                proof {
                    reveal_strlit("PUT");
                }
                "PUT"
            },
            Method::DELETE => {
                proof {
                    reveal_strlit("DELETE");
                }
                "DELETE"
            },
            Method::HEAD => {
                proof {
                    reveal_strlit("HEAD");
                }
                "HEAD"
            },
            Method::CONNECT => {
                proof {
                    reveal_strlit("CONNECT");
                }
                "CONNECT"
            },
            Method::OPTIONS => {
                proof {
                    reveal_strlit("OPTIONS");
                }
                "OPTIONS"
            },
            Method::TRACE => {
                proof {
                    reveal_strlit("TRACE");
                }
                "TRACE"
            },
            Method::PATCH => {
                proof {
                    reveal_strlit("PATCH");
                }
                "PATCH"
            },
        }
    }

    /// Recognises an upper-cased method word: it must be exactly one of the nine names.
    pub fn from_upper(upper: &str) -> (r: Result<Method, MethodError>)
        ensures
            match r {
                Ok(m) => method_of(upper@) == Some(m),
                Err(_) => method_of(upper@) is None,
            },
    {
        if same_text(upper, Method::GET.as_str()) {
            Ok(Method::GET)
        } else if same_text(upper, Method::POST.as_str()) {
            Ok(Method::POST)
        } else if same_text(upper, Method::PUT.as_str()) {
            Ok(Method::PUT)
        } else if same_text(upper, Method::DELETE.as_str()) {
            Ok(Method::DELETE)
        } else if same_text(upper, Method::HEAD.as_str()) {
            Ok(Method::HEAD)
        } else if same_text(upper, Method::CONNECT.as_str()) {
            Ok(Method::CONNECT)
        } else if same_text(upper, Method::OPTIONS.as_str()) {
            Ok(Method::OPTIONS)
        } else if same_text(upper, Method::TRACE.as_str()) {
            Ok(Method::TRACE)
        } else if same_text(upper, Method::PATCH.as_str()) {
            Ok(Method::PATCH)
        } else {
            Err(MethodError::new())
        }
    }

    /// Recognises a method word without regard to case, by upper-casing it first. The
    /// word is taken whole: a word with whitespace in it names no method.
    pub fn from_token(token: &str) -> (r: Result<Method, MethodError>)
        ensures
            match r {
                Ok(m) => method_of_word(token@) == Some(m),
                Err(_) => method_of_word(token@) is None,
            },
            token@.len() == 0 ==> r is Err,
    {
        let upper = to_upper(token);
        Method::from_upper(upper.as_str())
    }
}

impl MethodError {
    /// The message is always the same fixed text.
    #[verifier::type_invariant]
    spec fn well_formed(self) -> bool {
        self.message@ == method_error_message()
    }

    fn new() -> (r: MethodError)
        ensures
            r.message@ == method_error_message(),
    {
        proof {
            reveal_strlit("Invalid HTTP method");
        }
        let message = String::from_str("Invalid HTTP method");
        assert(message@ =~= method_error_message());
        MethodError { message }
    }

    /// The human-readable message of the error.
    pub fn message(&self) -> (r: &str)
        ensures
            r@ == method_error_message(),
    {
        proof {
            use_type_invariant(self);
        }
        self.message.as_str()
    }
}

impl std::str::FromStr for Method {
    type Err = MethodError;

    /// Recognises a method word without regard to case, as `Method::from_token` does.
    fn from_str(s: &str) -> (r: Result<Method, MethodError>)
        ensures
            match r {
                Ok(m) => method_of_word(s@) == Some(m),
                Err(_) => method_of_word(s@) is None,
            },
            s@.len() == 0 ==> r is Err,
    {
        Method::from_token(s)
    }
}

} // verus!
