//! Mathematical model of the validation pipeline, over byte sequences.
use crate::enums::{DataEnum, LineEnum, ValidationError};
use crate::schema::Shapes;
use crate::outside::endpoint_host_of;
use vstd::prelude::*;

verus! {

/// The canonical delimiter `:`.
pub const DELIM: u8 = 58;

/// `http://`
pub open spec fn http_prefix() -> Seq<u8> {
    seq![104u8, 116, 116, 112, 58, 47, 47]
}

/// `https://`
pub open spec fn https_prefix() -> Seq<u8> {
    seq![104u8, 116, 116, 112, 115, 58, 47, 47]
}

/// `android://`
pub open spec fn android_prefix() -> Seq<u8> {
    seq![97u8, 110, 100, 114, 111, 105, 100, 58, 47, 47]
}

/// `==@`, the marker of an Android line without its scheme.
pub open spec fn android_marker() -> Seq<u8> {
    seq![61u8, 61, 64]
}

pub open spec fn canon_byte(b: u8, set: Seq<u8>) -> u8 {
    if set.contains(b) {
        DELIM
    } else {
        b
    }
}

/// Every byte of `set` becomes the delimiter.
pub open spec fn canonical(s: Seq<u8>, set: Seq<u8>) -> Seq<u8> {
    s.map_values(|b: u8| canon_byte(b, set))
}

/// Number of delimiters in `s`.
pub open spec fn delim_count(s: Seq<u8>) -> nat
    decreases s.len(),
{
    if s.len() == 0 {
        0
    } else {
        delim_count(s.drop_last()) + if s.last() == DELIM {
            1nat
        } else {
            0nat
        }
    }
}

pub open spec fn starts_with(s: Seq<u8>, p: Seq<u8>) -> bool {
    p.len() <= s.len() && s.subrange(0, p.len() as int) == p
}

pub open spec fn occurs_at(s: Seq<u8>, p: Seq<u8>, i: int) -> bool {
    0 <= i && i + p.len() <= s.len() && s.subrange(i, i + p.len()) == p
}

/// `p` occurs somewhere in `s`.
pub open spec fn contains_pat(s: Seq<u8>, p: Seq<u8>) -> bool {
    exists|i: int| occurs_at(s, p, i)
}

/// Layout of a canonicalized line, and the line with the Android scheme
/// prepended where only the marker showed it.
pub open spec fn classify(s: Seq<u8>) -> (LineEnum, Seq<u8>) {
    if starts_with(s, http_prefix()) || starts_with(s, https_prefix()) {
        (LineEnum::Http, s)
    } else if starts_with(s, android_prefix()) {
        (LineEnum::Android, s)
    } else if contains_pat(s, android_marker()) {
        (LineEnum::Android, android_prefix() + s)
    } else if contains_pat(s, http_prefix()) || contains_pat(s, https_prefix()) {
        (LineEnum::ReversedHttp, s)
    } else {
        (LineEnum::WithoutHttp, s)
    }
}

/// Left-to-right scan of `s`: the fields closed so far, and the open one.
/// Only the first five delimiters close a field.
pub open spec fn scan(s: Seq<u8>) -> (Seq<Seq<u8>>, Seq<u8>)
    decreases s.len(),
{
    if s.len() == 0 {
        (Seq::empty(), Seq::empty())
    } else {
        let prev = scan(s.drop_last());
        if s.last() == DELIM && prev.0.len() < 5 {
            (prev.0.push(prev.1), Seq::empty())
        } else {
            (prev.0, prev.1.push(s.last()))
        }
    }
}

/// The fields of `s`: at most six, the last one keeping any further delimiters.
pub open spec fn fields(s: Seq<u8>) -> Seq<Seq<u8>> {
    scan(s).0.push(scan(s).1)
}

/// Fields joined back with the delimiter.
pub open spec fn join(p: Seq<Seq<u8>>) -> Seq<u8>
    decreases p.len(),
{
    if p.len() == 0 {
        Seq::empty()
    } else if p.len() == 1 {
        p[0]
    } else {
        join(p.drop_last()) + seq![DELIM] + p.last()
    }
}

/// `s` without the bytes of `bad`.
pub open spec fn strip(s: Seq<u8>, bad: Seq<u8>) -> Seq<u8>
    decreases s.len(),
{
    if s.len() == 0 {
        Seq::empty()
    } else if bad.contains(s.last()) {
        strip(s.drop_last(), bad)
    } else {
        strip(s.drop_last(), bad).push(s.last())
    }
}

pub open spec fn lower_byte(b: u8) -> u8 {
    if 65 <= b <= 90 {
        (b + 32) as u8
    } else {
        b
    }
}

/// ASCII lower case of `s`.
pub open spec fn lower(s: Seq<u8>) -> Seq<u8> {
    s.map_values(|b: u8| lower_byte(b))
}

/// Decimal digits of `n`, without leading zeros.
pub open spec fn decimal_of(n: nat) -> Seq<u8>
    decreases n,
{
    if n < 10 {
        seq![(48 + n) as u8]
    } else {
        decimal_of(n / 10).push((48 + n % 10) as u8)
    }
}

/// Model of a record after splitting and normalization.
pub struct Parts {
    pub url: Seq<u8>,
    pub port: Option<u16>,
    pub login: Seq<u8>,
    pub password: Seq<u8>,
    pub linetype: LineEnum,
}

/// Fields in record order: reversed for a reversed layout.
pub open spec fn ordered_fields(t: LineEnum, f: Seq<Seq<u8>>) -> Seq<Seq<u8>> {
    if t == LineEnum::ReversedHttp {
        f.reverse()
    } else {
        f
    }
}

/// The endpoint after normalization, with its port.
pub open spec fn normalized_endpoint(t: LineEnum, fragment: Seq<u8>) -> Option<(Seq<u8>, Option<u16>)> {
    if t == LineEnum::WithoutHttp {
        Some((https_prefix() + fragment, None))
    } else {
        match endpoint_host_of(fragment) {
            Some(hp) => Some((https_prefix() + hp.0, hp.1)),
            None => None,
        }
    }
}

/// Classification, splitting, sanitizing and normalization of `line`.
pub open spec fn parts_of(
    line: Seq<u8>,
    replace: Seq<u8>,
    bad: Seq<u8>,
    lower_login: bool,
) -> Result<Parts, ValidationError> {
    let c = canonical(line, replace);
    let n = delim_count(c);
    if n < 2 || n > 5 {
        Err(ValidationError::ParseError)
    } else {
        let (t, l) = classify(c);
        let f = ordered_fields(t, fields(l));
        let k = f.len();
        let login = if lower_login {
            lower(f[k - 2])
        } else {
            f[k - 2]
        };
        let password = strip(f[k - 1], bad);
        let t2 = if t == LineEnum::ReversedHttp {
            LineEnum::Http
        } else {
            t
        };
        match normalized_endpoint(t2, join(f.subrange(0, k - 2))) {
            None => Err(ValidationError::ParseError),
            Some(e) => Ok(Parts { url: e.0, port: e.1, login, password, linetype: t2 }),
        }
    }
}

/// The credential pair `login:password`.
pub open spec fn credits_of(login: Seq<u8>, password: Seq<u8>) -> Seq<u8> {
    login + seq![DELIM] + password
}

/// The canonical line `endpoint:[port:]login:password`.
pub open spec fn full_line_of(url: Seq<u8>, port: Option<u16>, login: Seq<u8>, password: Seq<u8>) -> Seq<u8> {
    match port {
        Some(p) => url + seq![DELIM] + decimal_of(p as nat) + seq![DELIM] + credits_of(login, password),
        None => url + seq![DELIM] + credits_of(login, password),
    }
}

pub open spec fn in_range(n: int, r: (u8, u8)) -> bool {
    r.0 <= n <= r.1
}

/// Model of a configuration.
pub struct ConfigView {
    pub replace: Seq<u8>,
    pub bad: Seq<u8>,
    pub lower_login: bool,
    pub filters: Seq<Seq<u8>>,
    pub parse_email: bool,
    pub parse_login: bool,
    pub parse_number: bool,
    pub find_data: bool,
    pub check_equal: bool,
    pub check_length: bool,
    pub full_range: (u8, u8),
    pub email_range: (u8, u8),
    pub login_range: (u8, u8),
    pub number_range: (u8, u8),
    pub default_range: (u8, u8),
    pub password_range: (u8, u8),
}

/// Model of a successful validation.
pub struct ResultView {
    pub full_line: Seq<u8>,
    pub credits: Seq<u8>,
    pub datatype: DataEnum,
    pub linetype: LineEnum,
}

/// The bad-word stage passes: no patterns are configured, or a non-empty one
/// occurs in the lower-cased credential pair.
pub open spec fn filter_ok(filters: Seq<Seq<u8>>, login: Seq<u8>, password: Seq<u8>) -> bool {
    filters.len() == 0 || exists|j: int|
        0 <= j < filters.len() && filters[j].len() > 0 && contains_pat(
            lower(credits_of(login, password)),
            #[trigger] filters[j],
        )
}

/// The login as the shape predicates see it: at most 255 bytes.
pub open spec fn probe_of(login: Seq<u8>) -> Seq<u8> {
    if login.len() > 255 {
        login.subrange(0, 255)
    } else {
        login
    }
}

/// Credential type chosen from the verdicts of the shape predicates.
pub open spec fn datatype_of(c: ConfigView, v: Shapes) -> Option<DataEnum> {
    if !c.find_data {
        Some(DataEnum::Unknown)
    } else if c.parse_email && v.email {
        Some(DataEnum::Email)
    } else if c.parse_login && v.login {
        Some(DataEnum::Login)
    } else if c.parse_number && v.number {
        Some(DataEnum::Number)
    } else {
        None
    }
}

/// Login length range for a credential type.
pub open spec fn login_range_of(c: ConfigView, d: DataEnum) -> (u8, u8) {
    match d {
        DataEnum::Email => c.email_range,
        DataEnum::Login => c.login_range,
        DataEnum::Number => c.number_range,
        DataEnum::Unknown => c.default_range,
    }
}

/// The stages after splitting, given the verdicts `v` of the shape predicates.
pub open spec fn concluded(c: ConfigView, p: Parts, v: Shapes) -> Result<ResultView, ValidationError> {
    match datatype_of(c, v) {
        None => Err(ValidationError::FindDataTypeError),
        Some(d) => {
            let full = full_line_of(p.url, p.port, p.login, p.password);
            if c.check_equal && p.login == p.password {
                Err(ValidationError::EqualError)
            } else if c.check_length && !in_range(full.len() as int, c.full_range) {
                Err(ValidationError::LengthError)
            } else if c.check_length && (!in_range(p.password.len() as int, c.password_range)
                || !in_range(p.login.len() as int, login_range_of(c, d))) {
                Err(ValidationError::LengthError)
            } else {
                Ok(
                    ResultView {
                        full_line: full,
                        credits: credits_of(p.login, p.password),
                        datatype: d,
                        linetype: p.linetype,
                    },
                )
            }
        },
    }
}

/// The whole pipeline on `line`, given the verdicts `v` of the shape predicates
/// on the login.
pub open spec fn validated(c: ConfigView, line: Seq<u8>, v: Shapes) -> Result<ResultView, ValidationError> {
    match parts_of(line, c.replace, c.bad, c.lower_login) {
        Err(e) => Err(e),
        Ok(p) => if !filter_ok(c.filters, p.login, p.password) {
            Err(ValidationError::FilterError)
        } else {
            concluded(c, p, v)
        },
    }
}

} // verus!
