//! Configuration, working record and result.
use crate::bytes::{to_vec, views};
use crate::enums::{DataEnum, LineEnum, ValidationError};
use crate::model::{ConfigView, Parts, ResultView};
use crate::outside::{pattern_at, pattern_count, pattern_push, patterns_empty, patterns_of, PatternList};
use vstd::prelude::*;

verus! {

/// Settings shared, read-only, by every validation.
pub struct LocalConfig {
    /// Bytes canonicalized to the delimiter `:`.
    pub replace_chars: Vec<u8>,
    /// Bytes removed from passwords.
    pub bad_replace_chars: Vec<u8>,
    pub login_to_lower_case: bool,
    /// Patterns of which one must occur in the lower-cased credential pair.
    pub filter_vector: PatternList,
    pub parse_email: bool,
    pub parse_login: bool,
    pub parse_number: bool,
    pub find_data: bool,
    pub check_equal: bool,
    pub check_length: bool,
    pub length_full_line: (u8, u8),
    pub email_length: (u8, u8),
    pub login_length: (u8, u8),
    pub number_length: (u8, u8),
    pub default_length: (u8, u8),
    pub password_length: (u8, u8),
}

impl View for LocalConfig {
    type V = ConfigView;

    open spec fn view(&self) -> ConfigView {
        ConfigView {
            replace: self.replace_chars@,
            bad: self.bad_replace_chars@,
            lower_login: self.login_to_lower_case,
            filters: patterns_of(self.filter_vector),
            parse_email: self.parse_email,
            parse_login: self.parse_login,
            parse_number: self.parse_number,
            find_data: self.find_data,
            check_equal: self.check_equal,
            check_length: self.check_length,
            full_range: self.length_full_line,
            email_range: self.email_length,
            login_range: self.login_length,
            number_range: self.number_length,
            default_range: self.default_length,
            password_range: self.password_length,
        }
    }
}

fn patterns_from(p: &Vec<Vec<u8>>) -> (r: PatternList)
    ensures
        patterns_of(r) == views(p@),
{
    let mut r = patterns_empty();
    let mut i: usize = 0;
    while i < p.len()
        invariant
            i <= p@.len(),
            patterns_of(r) =~= views(p@).subrange(0, i as int),
        decreases p.len() - i,
    {
        pattern_push(&mut r, p[i].as_slice());
        i += 1;
        proof {
            assert(patterns_of(r) =~= views(p@).subrange(0, i as int));
        }
    }
    proof {
        assert(views(p@).subrange(0, p@.len() as int) =~= views(p@));
    }
    r
}

fn copy_patterns(p: &PatternList) -> (r: PatternList)
    ensures
        patterns_of(r) == patterns_of(*p),
{
    let mut r = patterns_empty();
    let n = pattern_count(p);
    let mut i: usize = 0;
    while i < n
        invariant
            n == patterns_of(*p).len(),
            i <= n,
            patterns_of(r) =~= patterns_of(*p).subrange(0, i as int),
        decreases n - i,
    {
        pattern_push(&mut r, pattern_at(p, i));
        i += 1;
        proof {
            assert(patterns_of(r) =~= patterns_of(*p).subrange(0, i as int));
        }
    }
    proof {
        assert(patterns_of(*p).subrange(0, n as int) =~= patterns_of(*p));
    }
    r
}

impl LocalConfig {
    /// A configuration holding exactly the given settings.
    pub fn new(
        replace_chars: &[u8],
        bad_replace_chars: &[u8],
        filter_vector: &Vec<Vec<u8>>,
        length_full_line: (u8, u8),
        email_length: (u8, u8),
        login_length: (u8, u8),
        number_length: (u8, u8),
        default_length: (u8, u8),
        password_length: (u8, u8),
        login_to_lower_case: bool,
        parse_email: bool,
        parse_login: bool,
        parse_number: bool,
        find_data: bool,
        check_equal: bool,
        check_length: bool,
    ) -> (r: Self)
        ensures
            r@ == (ConfigView {
                replace: replace_chars@,
                bad: bad_replace_chars@,
                lower_login: login_to_lower_case,
                filters: views(filter_vector@),
                parse_email,
                parse_login,
                parse_number,
                find_data,
                check_equal,
                check_length,
                full_range: length_full_line,
                email_range: email_length,
                login_range: login_length,
                number_range: number_length,
                default_range: default_length,
                password_range: password_length,
            }),
    {
        LocalConfig {
            replace_chars: to_vec(replace_chars),
            bad_replace_chars: to_vec(bad_replace_chars),
            login_to_lower_case,
            filter_vector: patterns_from(filter_vector),
            parse_email,
            parse_login,
            parse_number,
            find_data,
            check_equal,
            check_length,
            length_full_line,
            email_length,
            login_length,
            number_length,
            default_length,
            password_length,
        }
    }

    /// An independent copy of the configuration.
    pub fn duplicate(&self) -> (r: Self)
        ensures
            r@ == self@,
    {
        LocalConfig {
            replace_chars: to_vec(self.replace_chars.as_slice()),
            bad_replace_chars: to_vec(self.bad_replace_chars.as_slice()),
            login_to_lower_case: self.login_to_lower_case,
            filter_vector: copy_patterns(&self.filter_vector),
            parse_email: self.parse_email,
            parse_login: self.parse_login,
            parse_number: self.parse_number,
            find_data: self.find_data,
            check_equal: self.check_equal,
            check_length: self.check_length,
            length_full_line: self.length_full_line,
            email_length: self.email_length,
            login_length: self.login_length,
            number_length: self.number_length,
            default_length: self.default_length,
            password_length: self.password_length,
        }
    }
}

impl Default for LocalConfig {
    /// Delimiters `;`, `|` and space; `()*$!%&^#<>?~=[]+/\,` removed from
    /// passwords; logins lower-cased; no patterns; every stage on; lengths
    /// full line 20..=150, email 8..=35, login 5..=35, number 11..=16,
    /// other 5..=35, password 8..=35.
    fn default() -> (r: Self)
        ensures
            r.replace_chars@ == seq![59u8, 124, 32],
            r.bad_replace_chars@ == seq![
                40u8, 41, 42, 36, 33, 37, 38, 94, 35, 60, 62, 63, 126, 61, 91, 93, 43, 47, 92, 44
            ],
            r.login_to_lower_case,
            patterns_of(r.filter_vector).len() == 0,
            r.parse_email && r.parse_login && r.parse_number,
            r.find_data && r.check_equal && r.check_length,
            r.length_full_line == (20u8, 150u8),
            r.email_length == (8u8, 35u8),
            r.login_length == (5u8, 35u8),
            r.number_length == (11u8, 16u8),
            r.default_length == (5u8, 35u8),
            r.password_length == (8u8, 35u8),
    {
        let replace_chars = vec![59u8, 124, 32];
        let bad_replace_chars = vec![
            40u8, 41, 42, 36, 33, 37, 38, 94, 35, 60, 62, 63, 126, 61, 91, 93, 43, 47, 92, 44
        ];
        proof {
            assert(replace_chars@ =~= seq![59u8, 124, 32]);
            assert(bad_replace_chars@ =~= seq![
                40u8, 41, 42, 36, 33, 37, 38, 94, 35, 60, 62, 63, 126, 61, 91, 93, 43, 47, 92, 44
            ]);
        }
        LocalConfig {
            replace_chars,
            bad_replace_chars,
            login_to_lower_case: true,
            filter_vector: patterns_empty(),
            parse_email: true,
            parse_login: true,
            parse_number: true,
            find_data: true,
            check_equal: true,
            check_length: true,
            length_full_line: (20, 150),
            email_length: (8, 35),
            login_length: (5, 35),
            number_length: (11, 16),
            default_length: (5, 35),
            password_length: (8, 35),
        }
    }
}

/// Verdicts of the three shape predicates on a login.
#[derive(Clone, Copy, Debug, PartialEq, Eq, Structural)]
pub struct Shapes {
    pub email: bool,
    pub login: bool,
    pub number: bool,
}

/// The injected shape predicates over a login's bytes (at most 255 of them).
pub trait ShapeRules {
    fn is_email(&self, login: &[u8]) -> bool;

    fn is_login(&self, login: &[u8]) -> bool;

    fn is_phone_number(&self, login: &[u8]) -> bool;
}

/// Working record of one validation, bound to its configuration.
pub struct VULP {
    pub config: LocalConfig,
    pub url: Option<Vec<u8>>,
    pub port: Option<u16>,
    pub login: Option<Vec<u8>>,
    pub password: Option<Vec<u8>>,
    pub datatype: DataEnum,
    pub linetype: LineEnum,
}

/// Outcome of a successful validation.
#[derive(Debug)]
pub struct ResultVULP {
    /// `endpoint:[port:]login:password`
    pub full_line: Vec<u8>,
    /// `login:password`
    pub credits: Vec<u8>,
    pub datatype: DataEnum,
    pub linetype: LineEnum,
}

impl View for ResultVULP {
    type V = ResultView;

    open spec fn view(&self) -> ResultView {
        ResultView {
            full_line: self.full_line@,
            credits: self.credits@,
            datatype: self.datatype,
            linetype: self.linetype,
        }
    }
}

/// Model of a validation outcome.
pub open spec fn outcome(r: Result<ResultVULP, ValidationError>) -> Result<ResultView, ValidationError> {
    match r {
        Ok(v) => Ok(v@),
        Err(e) => Err(e),
    }
}

impl VULP {
    /// The record's fields hold `p`.
    pub open spec fn holds(&self, p: Parts) -> bool {
        &&& self.url is Some && self.url.unwrap()@ == p.url
        &&& self.port == p.port
        &&& self.login is Some && self.login.unwrap()@ == p.login
        &&& self.password is Some && self.password.unwrap()@ == p.password
        &&& self.linetype == p.linetype
    }

    /// The record's fields as a model, where they are set.
    pub open spec fn parts(&self) -> Parts {
        Parts {
            url: self.url.unwrap()@,
            port: self.port,
            login: self.login.unwrap()@,
            password: self.password.unwrap()@,
            linetype: self.linetype,
        }
    }
}

} // verus!
