//! The validation pipeline on a working record.
use crate::bytes::{
    append_bytes, ascii_lower, canonicalize, classify_line, count_delims, decimal, fast_filter,
    https_bytes, join_fields, split_fields, to_vec, views,
};
use crate::enums::{DataEnum, LineEnum, ValidationError};
use crate::laws::lemma_delimiter_count_splits;
use crate::model::{
    concluded, contains_pat, credits_of, datatype_of, fields, filter_ok, full_line_of,
    https_prefix, in_range, login_range_of, lower, normalized_endpoint, ordered_fields, parts_of,
    probe_of, validated, DELIM,
};
use crate::outside::{endpoint_host, find, pattern_at, pattern_count};
use crate::schema::{outcome, LocalConfig, ResultVULP, ShapeRules, Shapes, VULP};
use vstd::prelude::*;

verus! {

fn reverse_fields(f: &Vec<Vec<u8>>) -> (r: Vec<Vec<u8>>)
    requires
        f@.len() > 0,
    ensures
        views(r@) == views(f@).reverse(),
{
    let n = f.len();
    let mut r: Vec<Vec<u8>> = Vec::with_capacity(n);
    let mut i: usize = 0;
    while i < n
        invariant
            n == f@.len(),
            i <= n,
            views(r@) =~= Seq::new(i as nat, |j: int| views(f@)[n - 1 - j]),
        decreases n - i,
    {
        let c = to_vec(f[n - 1 - i].as_slice());
        proof {
            assert(views(r@.push(c)) =~= views(r@).push(c@));
        }
        r.push(c);
        i += 1;
        proof {
            assert(views(r@) =~= Seq::new(i as nat, |j: int| views(f@)[n - 1 - j]));
        }
    }
    r
}

fn bytes_equal(a: &[u8], b: &[u8]) -> (r: bool)
    ensures
        r == (a@ == b@),
{
    if a.len() != b.len() {
        return false;
    }
    let mut i: usize = 0;
    while i < a.len()
        invariant
            a@.len() == b@.len(),
            i <= a@.len(),
            forall|k: int| 0 <= k < i ==> a@[k] == b@[k],
        decreases a.len() - i,
    {
        if a[i] != b[i] {
            return false;
        }
        i += 1;
    }
    proof {
        assert(a@ =~= b@);
    }
    true
}

/// Rebuilds the endpoint as `https://` + host from the host and port that
/// were extracted from it.
pub fn rebuild_endpoint(extracted: Option<(Vec<u8>, Option<u16>)>) -> (r: Option<(Vec<u8>, Option<u16>)>)
    ensures
        match extracted {
            Some(hp) => r is Some && r.unwrap().0@ == https_prefix() + hp.0@ && r.unwrap().1
                == hp.1,
            None => r is None,
        },
{
    match extracted {
        Some(hp) => {
            let mut url = https_bytes();
            append_bytes(&mut url, hp.0.as_slice());
            Some((url, hp.1))
        },
        None => None,
    }
}

/// The endpoint fragment normalized for line type `t`: `https://` prepended
/// to a schemeless one, otherwise rebuilt from the host (and port) that the
/// URL parser extracts.
pub fn normalize_endpoint(t: LineEnum, fragment: &[u8]) -> (r: Option<(Vec<u8>, Option<u16>)>)
    ensures
        match normalized_endpoint(t, fragment@) {
            Some(e) => r is Some && r.unwrap().0@ == e.0 && r.unwrap().1 == e.1,
            None => r is None,
        },
{
    if t == LineEnum::WithoutHttp {
        let mut url = https_bytes();
        append_bytes(&mut url, fragment);
        Some((url, None))
    } else {
        rebuild_endpoint(endpoint_host(fragment))
    }
}

impl VULP {
    /// A cleared record bound to a copy of `config`.
    pub fn new(config: &LocalConfig) -> (r: Self)
        ensures
            r.config@ == config@,
            r.url is None && r.port is None && r.login is None && r.password is None,
            r.datatype == DataEnum::Unknown,
            r.linetype == LineEnum::WithoutHttp,
    {
        VULP {
            config: config.duplicate(),
            url: None,
            port: None,
            login: None,
            password: None,
            datatype: DataEnum::Unknown,
            linetype: LineEnum::WithoutHttp,
        }
    }

    /// Classifies, splits, sanitizes and normalizes `input` into the record.
    pub fn get_parts_in_line(&mut self, input: &[u8]) -> (r: Result<(), ValidationError>)
        ensures
            final(self).config == old(self).config,
            match parts_of(
                input@,
                old(self).config@.replace,
                old(self).config@.bad,
                old(self).config@.lower_login,
            ) {
                Ok(p) => r is Ok && final(self).holds(p) && final(self).datatype
                    == DataEnum::Unknown,
                Err(e) => r == Err::<(), ValidationError>(e),
            },
    {
        let c = canonicalize(input, self.config.replace_chars.as_slice());
        let n = count_delims(c.as_slice());
        if n < 2 || n > 5 {
            return Err(ValidationError::ParseError);
        }
        let (t, l) = classify_line(c.as_slice());
        let split = split_fields(l.as_slice());
        proof {
            lemma_delimiter_count_splits(input@, self.config.replace_chars@);
        }
        let f = if t == LineEnum::ReversedHttp {
            reverse_fields(&split)
        } else {
            split
        };
        let ghost fv = ordered_fields(t, fields(l@));
        assert(views(f@) == fv);
        let k = f.len();
        assert(views(f@)[k - 2] == f@[k - 2]@);
        assert(views(f@)[k - 1] == f@[k - 1]@);
        let login = if self.config.login_to_lower_case {
            ascii_lower(f[k - 2].as_slice())
        } else {
            to_vec(f[k - 2].as_slice())
        };
        let password = fast_filter(f[k - 1].as_slice(), self.config.bad_replace_chars.as_slice());
        let t2 = if t == LineEnum::ReversedHttp {
            LineEnum::Http
        } else {
            t
        };
        let fragment = join_fields(&f, 0, k - 2);
        match normalize_endpoint(t2, fragment.as_slice()) {
            None => Err(ValidationError::ParseError),
            Some(e) => {
                self.url = Some(e.0);
                self.port = e.1;
                self.login = Some(login);
                self.password = Some(password);
                self.datatype = DataEnum::Unknown;
                self.linetype = t2;
                Ok(())
            },
        }
    }

    /// The bad-word stage: with patterns configured, one non-empty pattern must
    /// occur in the lower-cased `login:password`.
    pub fn checking_bad_words_in_credits(&self) -> (r: Result<(), ValidationError>)
        requires
            self.login is Some && self.password is Some,
        ensures
            r is Ok == filter_ok(self.config@.filters, self.login.unwrap()@, self.password.unwrap()@),
            r is Err ==> r == Err::<(), ValidationError>(ValidationError::FilterError),
    {
        let n = pattern_count(&self.config.filter_vector);
        if n == 0 {
            return Ok(());
        }
        let combo = self.credits();
        let lowered = ascii_lower(combo.as_slice());
        let ghost filters = self.config@.filters;
        let ghost hay = lower(credits_of(self.login.unwrap()@, self.password.unwrap()@));
        let mut i: usize = 0;
        while i < n
            invariant
                i <= n,
                n == filters.len(),
                filters == self.config@.filters,
                self.login is Some && self.password is Some,
                hay == lower(credits_of(self.login.unwrap()@, self.password.unwrap()@)),
                lowered@ == hay,
                forall|j: int|
                    0 <= j < i ==> !(filters[j].len() > 0 && contains_pat(hay, #[trigger] filters[j])),
            decreases n - i,
        {
            let pattern = pattern_at(&self.config.filter_vector, i);
            if pattern.len() > 0 && find(lowered.as_slice(), pattern).is_some() {
                proof {
                    let j = i as int;
                    assert(0 <= j < filters.len() && filters[j].len() > 0 && contains_pat(hay, filters[j]));
                }
                return Ok(());
            }
            i += 1;
        }
        Err(ValidationError::FilterError)
    }

    /// The login as the shape predicates see it: its first 255 bytes at most.
    pub fn probe(&self) -> (r: Vec<u8>)
        requires
            self.login is Some,
        ensures
            r@ == probe_of(self.login.unwrap()@),
    {
        let login = self.login.as_ref().unwrap();
        let mut r: Vec<u8> = Vec::new();
        let n: usize = if login.len() > 255 {
            255
        } else {
            login.len()
        };
        let mut i: usize = 0;
        while i < n
            invariant
                n <= login@.len(),
                i <= n,
                r@ =~= login@.subrange(0, i as int),
            decreases n - i,
        {
            r.push(login[i]);
            i += 1;
        }
        proof {
            assert(login@.subrange(0, login@.len() as int) =~= login@);
        }
        r
    }

    /// The credential-type stage, given the verdicts `v` of the shape predicates
    /// on the probe.
    pub fn find_type_credits(&mut self, v: Shapes) -> (r: Result<(), ValidationError>)
        ensures
            final(self).config == old(self).config,
            final(self).url == old(self).url && final(self).port == old(self).port,
            final(self).login == old(self).login && final(self).password == old(self).password,
            final(self).linetype == old(self).linetype,
            match datatype_of(old(self).config@, v) {
                Some(d) => r is Ok && final(self).datatype == d,
                None => r == Err::<(), ValidationError>(ValidationError::FindDataTypeError),
            },
    {
        if !self.config.find_data {
            self.datatype = DataEnum::Unknown;
            return Ok(());
        }
        if self.config.parse_email && v.email {
            self.datatype = DataEnum::Email;
        } else if self.config.parse_login && v.login {
            self.datatype = DataEnum::Login;
        } else if self.config.parse_number && v.number {
            self.datatype = DataEnum::Number;
        } else {
            return Err(ValidationError::FindDataTypeError);
        }
        Ok(())
    }

    /// The equality stage: login and password must differ where it is on.
    pub fn check_equal(&self) -> (r: Result<(), ValidationError>)
        requires
            self.login is Some && self.password is Some,
        ensures
            r is Err == (self.config.check_equal && self.login.unwrap()@ == self.password.unwrap()@),
            r is Err ==> r == Err::<(), ValidationError>(ValidationError::EqualError),
    {
        if !self.config.check_equal {
            return Ok(());
        }
        let login = self.login.as_ref().unwrap();
        let password = self.password.as_ref().unwrap();
        if bytes_equal(login.as_slice(), password.as_slice()) {
            Err(ValidationError::EqualError)
        } else {
            Ok(())
        }
    }

    /// `login:password`
    pub fn credits(&self) -> (r: Vec<u8>)
        requires
            self.login is Some && self.password is Some,
        ensures
            r@ == credits_of(self.login.unwrap()@, self.password.unwrap()@),
    {
        let login = self.login.as_ref().unwrap();
        let password = self.password.as_ref().unwrap();
        let mut r: Vec<u8> = Vec::with_capacity(login.len());
        append_bytes(&mut r, login.as_slice());
        r.push(DELIM);
        append_bytes(&mut r, password.as_slice());
        proof {
            assert(r@ =~= credits_of(login@, password@));
        }
        r
    }

    /// `endpoint:[port:]login:password`
    pub fn full_line(&self) -> (r: Vec<u8>)
        requires
            self.url is Some && self.login is Some && self.password is Some,
        ensures
            r@ == full_line_of(
                self.url.unwrap()@,
                self.port,
                self.login.unwrap()@,
                self.password.unwrap()@,
            ),
    {
        let url = self.url.as_ref().unwrap();
        let credit = self.credits();
        let mut r: Vec<u8> = Vec::with_capacity(url.len());
        append_bytes(&mut r, url.as_slice());
        r.push(DELIM);
        match self.port {
            Some(port) => {
                let digits = decimal(port);
                append_bytes(&mut r, digits.as_slice());
                r.push(DELIM);
            },
            None => {},
        }
        append_bytes(&mut r, credit.as_slice());
        proof {
            assert(r@ =~= full_line_of(url@, self.port, self.login.unwrap()@, self.password.unwrap()@));
        }
        r
    }

    /// The full-line length stage.
    fn validate_full_length(&self, full: &Vec<u8>) -> (r: Result<(), ValidationError>)
        ensures
            r is Err == (self.config.check_length && !in_range(full@.len() as int, self.config.length_full_line)),
            r is Err ==> r == Err::<(), ValidationError>(ValidationError::LengthError),
    {
        if !self.config.check_length {
            return Ok(());
        }
        let (lo, hi) = self.config.length_full_line;
        if (lo as usize) <= full.len() && full.len() <= (hi as usize) {
            Ok(())
        } else {
            Err(ValidationError::LengthError)
        }
    }

    /// The password and login length stage; the login range follows the
    /// credential type.
    fn validate_credit_length(&self) -> (r: Result<(), ValidationError>)
        requires
            self.login is Some && self.password is Some,
        ensures
            r is Err == (self.config.check_length && (!in_range(
                self.password.unwrap()@.len() as int,
                self.config.password_length,
            ) || !in_range(self.login.unwrap()@.len() as int, login_range_of(self.config@, self.datatype)))),
            r is Err ==> r == Err::<(), ValidationError>(ValidationError::LengthError),
    {
        if !self.config.check_length {
            return Ok(());
        }
        let password_len = self.password.as_ref().unwrap().len();
        let (plo, phi) = self.config.password_length;
        if !((plo as usize) <= password_len && password_len <= (phi as usize)) {
            return Err(ValidationError::LengthError);
        }
        let login_len = self.login.as_ref().unwrap().len();
        let (lo, hi) = match self.datatype {
            DataEnum::Email => self.config.email_length,
            DataEnum::Login => self.config.login_length,
            DataEnum::Number => self.config.number_length,
            DataEnum::Unknown => self.config.default_length,
        };
        if (lo as usize) <= login_len && login_len <= (hi as usize) {
            Ok(())
        } else {
            Err(ValidationError::LengthError)
        }
    }

    /// The stages after splitting and the bad-word filter, given the verdicts
    /// `v` of the shape predicates on the probe.
    pub fn conclude(&mut self, v: Shapes) -> (r: Result<ResultVULP, ValidationError>)
        requires
            old(self).url is Some && old(self).login is Some && old(self).password is Some,
        ensures
            final(self).config == old(self).config,
            outcome(r) == concluded(old(self).config@, old(self).parts(), v),
    {
        self.find_type_credits(v)?;
        self.check_equal()?;
        let full = self.full_line();
        self.validate_full_length(&full)?;
        self.validate_credit_length()?;
        let credits = self.credits();
        Ok(ResultVULP { full_line: full, credits, datatype: self.datatype, linetype: self.linetype })
    }

    /// The whole pipeline on `line`, given the verdicts `v` of the shape
    /// predicates on the login that the line yields.
    pub fn validate_given(&mut self, line: &[u8], v: Shapes) -> (r: Result<ResultVULP, ValidationError>)
        ensures
            final(self).config == old(self).config,
            outcome(r) == validated(old(self).config@, line@, v),
    {
        self.reset();
        self.get_parts_in_line(line)?;
        self.checking_bad_words_in_credits()?;
        self.conclude(v)
    }

    /// The whole pipeline on `line`, asking `rules` for the shape verdicts on
    /// the login's first 255 bytes; a predicate is asked only where its verdict
    /// is used.
    pub fn validate<R: ShapeRules>(&mut self, line: &[u8], rules: &R) -> (r: Result<ResultVULP, ValidationError>)
        ensures
            final(self).config == old(self).config,
            exists|v: Shapes| outcome(r) == validated(old(self).config@, line@, v),
    {
        self.reset();
        let ghost cfg = self.config@;
        match self.get_parts_in_line(line) {
            Err(e) => {
                assert(outcome(Err(e)) == validated(cfg, line@, Shapes { email: false, login: false, number: false }));
                return Err(e);
            },
            Ok(()) => {},
        }
        match self.checking_bad_words_in_credits() {
            Err(e) => {
                assert(outcome(Err(e)) == validated(cfg, line@, Shapes { email: false, login: false, number: false }));
                return Err(e);
            },
            Ok(()) => {},
        }
        let probe = self.probe();
        let find = self.config.find_data;
        let email = find && self.config.parse_email && rules.is_email(probe.as_slice());
        let login = find && !email && self.config.parse_login && rules.is_login(probe.as_slice());
        let number = find && !email && !login && self.config.parse_number && rules.is_phone_number(
            probe.as_slice(),
        );
        let v = Shapes { email, login, number };
        let r = self.conclude(v);
        assert(outcome(r) == validated(cfg, line@, v));
        r
    }

    fn reset(&mut self)
        ensures
            final(self).config == old(self).config,
            final(self).url is None && final(self).port is None,
            final(self).login is None && final(self).password is None,
            final(self).datatype == DataEnum::Unknown,
            final(self).linetype == LineEnum::WithoutHttp,
    {
        self.login = None;
        self.password = None;
        self.url = None;
        self.port = None;
        self.datatype = DataEnum::Unknown;
        self.linetype = LineEnum::WithoutHttp;
    }
}

} // verus!
