use vstd::prelude::*;
use vstd::string::StringExecFns;

verus! {

/// I/O error categories.
#[derive(Clone, Copy, Debug, PartialEq, Eq)]
pub enum Io {
    /// Reading, writing or parsing data went wrong.
    Serialize,
    /// Any other I/O failure.
    Other,
}

/// Errors coming back from the ArangoDB HTTP API.
#[derive(Clone, Copy, Debug, PartialEq, Eq)]
pub enum ArangoDBError {
    /// A non-success HTTP status code returned by the server.
    HttpError(u16),
}

/// The category of an [`Error`].
#[derive(Clone, Copy, Debug, PartialEq, Eq)]
pub enum Kind {
    /// A transport-level HTTP client failure.
    Http,
    /// A failure reported by the ArangoDB API.
    ArangoDB(ArangoDBError),
    /// An I/O failure.
    Io(Io),
}

/// A generic error for this crate: a category plus an optional underlying cause.
#[derive(Clone, Debug, PartialEq, Eq)]
pub struct Error {
    pub kind: Kind,
    pub cause: Option<String>,
}

/// A `Result` typedef to use with the crate's [`Error`] type.
pub type Result<T> = core::result::Result<T, Error>;

/// Converts a foreign result into one carrying this crate's [`Error`].
pub trait MapCrateError<T>: Sized {
    fn map_crate_err(self) -> Result<T>;
}

impl<T, E: Into<Error>> MapCrateError<T> for core::result::Result<T, E> {
    /// Maps the error of a foreign result into this crate's [`Error`].
    fn map_crate_err(self) -> Result<T> {
        match self {
            Ok(v) => Ok(v),
            Err(e) => Err(e.into()),
        }
    }
}

/// The character for one decimal digit value.
pub open spec fn digit_char(d: int) -> char {
    ((48 + d) as u8) as char
}

/// Decimal rendering of a number, most significant digit first.
pub open spec fn dec_str_of(n: int) -> Seq<char>
    decreases n,
{
    if n < 10 {
        seq![digit_char(if n >= 0 {
            n
        } else {
            0
        })]
    } else {
        dec_str_of(n / 10).push(digit_char(n % 10))
    }
}

/// Renders a number in decimal, most significant digit first.
fn u16_to_string(v: u16) -> (r: String)
    ensures
        r@ == dec_str_of(v as int),
    decreases v,
{
    let digits = "0123456789";
    proof {
        reveal_strlit("0123456789");
        assert forall|k: int| 0 <= k < 10 implies #[trigger] digits@[k] == digit_char(k) by {
            assert(digits@[0] == digit_char(0));
            assert(digits@[1] == digit_char(1));
            assert(digits@[2] == digit_char(2));
            assert(digits@[3] == digit_char(3));
            assert(digits@[4] == digit_char(4));
            assert(digits@[5] == digit_char(5));
            assert(digits@[6] == digit_char(6));
            assert(digits@[7] == digit_char(7));
            assert(digits@[8] == digit_char(8));
            assert(digits@[9] == digit_char(9));
        }
    }
    let d = (v % 10) as usize;
    let ds = digits.substring_char(d, d + 1);
    proof {
        assert(ds@ =~= seq![digit_char((v % 10) as int)]);
    }
    if v < 10 {
        ds.to_owned()
    } else {
        let r = u16_to_string(v / 10).concat(ds);
        proof {
            assert(dec_str_of(v as int) =~= dec_str_of((v / 10) as int) + seq![
                digit_char((v % 10) as int),
            ]);
        }
        r
    }
}

/// What [`Error::description`] says for each error category.
pub open spec fn spec_description(kind: Kind) -> Seq<char> {
    match kind {
        Kind::Http => "HTTP client error"@,
        Kind::ArangoDB(ArangoDBError::HttpError(s)) => "ArangoDB HTTP API error: "@ + dec_str_of(
            s as int,
        ),
        Kind::Io(Io::Serialize) => "Error while serializing/deserializing data"@,
        Kind::Io(Io::Other) => "I/O Error"@,
    }
}

impl Error {
    /// Creates a new error of the given category, with no cause attached.
    pub fn new(kind: Kind) -> (r: Error)
        ensures
            r.kind == kind,
            r.cause is None,
    {
        Error { kind, cause: None }
    }

    /// Attaches an underlying cause to this error.
    pub fn with(self, cause: String) -> (r: Error)
        ensures
            r.kind == self.kind,
            r.cause == Some(cause),
    {
        Error { kind: self.kind, cause: Some(cause) }
    }

    /// A short message naming the error category.
    pub fn description(&self) -> (r: String)
        ensures
            r@ == spec_description(self.kind),
    {
        match self.kind {
            Kind::Http => String::from_str("HTTP client error"),
            Kind::ArangoDB(ArangoDBError::HttpError(s)) => String::from_str(
                "ArangoDB HTTP API error: ",
            ).concat(u16_to_string(s).as_str()),
            Kind::Io(Io::Serialize) => String::from_str(
                "Error while serializing/deserializing data",
            ),
            Kind::Io(Io::Other) => String::from_str("I/O Error"),
        }
    }
}

} // verus!
