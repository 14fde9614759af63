use vstd::prelude::*;

verus! {

/// Semantic category detected for the login field.
#[derive(Clone, Copy, Debug, PartialEq, Eq, Structural)]
pub enum DataEnum {
    Login,
    Email,
    Number,
    Unknown,
}

/// Structural layout detected for a line.
#[derive(Clone, Copy, Debug, PartialEq, Eq, Structural)]
pub enum LineEnum {
    Http,
    Android,
    ReversedHttp,
    WithoutHttp,
}

/// The one reason a line is rejected.
#[derive(Clone, Copy, Debug, PartialEq, Eq, Structural)]
pub enum ValidationError {
    LengthError,
    FindDataTypeError,
    ParseError,
    FilterError,
    EqualError,
}

impl DataEnum {
    /// Lower-case label of the category.
    pub fn label(&self) -> (r: &'static str)
        ensures
            *self == DataEnum::Email ==> r@ == "email"@,
            *self == DataEnum::Login ==> r@ == "login"@,
            *self == DataEnum::Number ==> r@ == "number"@,
            *self == DataEnum::Unknown ==> r@ == "unknown"@,
    {
        match self {
            DataEnum::Email => "email",
            DataEnum::Login => "login",
            DataEnum::Number => "number",
            DataEnum::Unknown => "unknown",
        }
    }
}

impl LineEnum {
    /// Lower-case label of the layout.
    pub fn label(&self) -> (r: &'static str)
        ensures
            *self == LineEnum::Http ==> r@ == "http"@,
            *self == LineEnum::Android ==> r@ == "android"@,
            *self == LineEnum::ReversedHttp ==> r@ == "reversed_http"@,
            *self == LineEnum::WithoutHttp ==> r@ == "without_http"@,
    {
        match self {
            LineEnum::Android => "android",
            LineEnum::Http => "http",
            LineEnum::ReversedHttp => "reversed_http",
            LineEnum::WithoutHttp => "without_http",
        }
    }
}

} // verus!
