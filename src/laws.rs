//! Properties of the pipeline that hold for all inputs.
use crate::enums::{LineEnum, ValidationError};
use crate::model::{
    android_prefix, canonical, classify, concluded, datatype_of, decimal_of, delim_count,
    fields, full_line_of, https_prefix, in_range, join, login_range_of, lower, lower_byte,
    ordered_fields, parts_of, scan, strip, validated, ConfigView, Parts, DELIM,
};
use crate::outside::endpoint_host_of;
use crate::schema::Shapes;
use vstd::prelude::*;

verus! {

proof fn lemma_scan_count(s: Seq<u8>)
    ensures
        scan(s).0.len() == if delim_count(s) < 5 {
            delim_count(s)
        } else {
            5
        },
    decreases s.len(),
{
    if s.len() > 0 {
        lemma_scan_count(s.drop_last());
    }
}

proof fn lemma_delims_of_concat(a: Seq<u8>, b: Seq<u8>)
    ensures
        delim_count(a + b) == delim_count(a) + delim_count(b),
    decreases b.len(),
{
    if b.len() == 0 {
        assert(a + b =~= a);
    } else {
        assert((a + b).drop_last() =~= a + b.drop_last());
        lemma_delims_of_concat(a, b.drop_last());
    }
}

/// A canonicalized line whose delimiter count lies outside `[2, 5]` is
/// rejected with `ParseError`, whatever the configuration and the shape
/// verdicts.
pub proof fn lemma_delimiter_count_rejects(c: ConfigView, line: Seq<u8>, v: Shapes)
    requires
        delim_count(canonical(line, c.replace)) < 2 || delim_count(canonical(line, c.replace)) > 5,
    ensures
        validated(c, line, v) == Err::<crate::model::ResultView, ValidationError>(ValidationError::ParseError),
{
}

/// A canonicalized line with two to five delimiters passes the splitter: it
/// yields between three and six fields, so that a login and a password are
/// assigned; without the Android rewrite, exactly one field more than it has
/// delimiters.
pub proof fn lemma_delimiter_count_splits(line: Seq<u8>, replace: Seq<u8>)
    requires
        2 <= delim_count(canonical(line, replace)) <= 5,
    ensures
        3 <= fields(classify(canonical(line, replace)).1).len() <= 6,
        classify(canonical(line, replace)).1 == canonical(line, replace) ==> fields(
            classify(canonical(line, replace)).1,
        ).len() == delim_count(canonical(line, replace)) + 1,
{
    let c = canonical(line, replace);
    let l = classify(c).1;
    if l != c {
        lemma_delims_of_concat(android_prefix(), c);
    }
    lemma_scan_count(l);
}

/// A successful validation never reports the reversed layout: it collapses to
/// `Http`.
pub proof fn lemma_no_reversed_result(c: ConfigView, line: Seq<u8>, v: Shapes)
    ensures
        validated(c, line, v) is Ok ==> validated(c, line, v).unwrap().linetype != LineEnum::ReversedHttp,
{
    if validated(c, line, v) is Ok {
        assert(parts_of(line, c.replace, c.bad, c.lower_login).unwrap().linetype != LineEnum::ReversedHttp);
    }
}

/// With the length stage on and every other stage passing, the password
/// passes exactly when its length lies in the configured inclusive range; a
/// password one byte shorter than the minimum or longer than the maximum
/// gives `LengthError`.
pub proof fn lemma_password_length_bounds(c: ConfigView, p: Parts, v: Shapes)
    requires
        c.check_length,
        datatype_of(c, v) is Some,
        !(c.check_equal && p.login == p.password),
        in_range(full_line_of(p.url, p.port, p.login, p.password).len() as int, c.full_range),
        in_range(p.login.len() as int, login_range_of(c, datatype_of(c, v).unwrap())),
    ensures
        concluded(c, p, v) is Ok == in_range(p.password.len() as int, c.password_range),
        p.password.len() == c.password_range.0 || p.password.len() == c.password_range.1
            ==> (c.password_range.0 <= c.password_range.1 ==> concluded(c, p, v) is Ok),
        p.password.len() + 1 == c.password_range.0 || p.password.len() == c.password_range.1 + 1
            ==> concluded(c, p, v) == Err::<crate::model::ResultView, ValidationError>(
            ValidationError::LengthError,
        ),
{
}

/// Sanitizing deletes the disallowed bytes: the result is the input with
/// exactly those bytes filtered out, so none of them is left and nothing
/// stands in their place.
pub proof fn lemma_strip_removes(s: Seq<u8>, bad: Seq<u8>)
    ensures
        strip(s, bad) == s.filter(|b: u8| !bad.contains(b)),
        forall|i: int| 0 <= i < strip(s, bad).len() ==> !bad.contains(#[trigger] strip(s, bad)[i]),
        strip(s, bad).len() <= s.len(),
    decreases s.len(),
{
    reveal(Seq::filter);
    if s.len() > 0 {
        lemma_strip_removes(s.drop_last(), bad);
    }
}

/// The password of a record that passed the splitter holds no disallowed
/// byte.
pub proof fn lemma_password_sanitized(line: Seq<u8>, replace: Seq<u8>, bad: Seq<u8>, lower_login: bool)
    ensures
        parts_of(line, replace, bad, lower_login) is Ok ==> forall|i: int|
            0 <= i < parts_of(line, replace, bad, lower_login).unwrap().password.len() ==> !bad.contains(
                #[trigger] parts_of(line, replace, bad, lower_login).unwrap().password[i],
            ),
{
    let c = canonical(line, replace);
    let f = fields(classify(c).1);
    if parts_of(line, replace, bad, lower_login) is Ok {
        let t = classify(c).0;
        let g = crate::model::ordered_fields(t, f);
        lemma_strip_removes(g[g.len() - 1], bad);
    }
}

/// Sanitizing twice is sanitizing once.
pub proof fn lemma_strip_idempotent(s: Seq<u8>, bad: Seq<u8>)
    ensures
        strip(strip(s, bad), bad) == strip(s, bad),
    decreases s.len(),
{
    if s.len() > 0 {
        lemma_strip_idempotent(s.drop_last(), bad);
        let t = strip(s.drop_last(), bad);
        if !bad.contains(s.last()) {
            assert(t.push(s.last()).drop_last() =~= t);
        }
    }
}

/// Lower-casing twice is lower-casing once.
pub proof fn lemma_lower_idempotent(s: Seq<u8>)
    ensures
        lower(lower(s)) == lower(s),
{
    assert forall|i: int| 0 <= i < s.len() implies lower_byte(lower_byte(s[i])) == lower_byte(s[i]) by {}
    assert(lower(lower(s)) =~= lower(s));
}


/// `s` holds no delimiter.
pub open spec fn no_delim(s: Seq<u8>) -> bool {
    forall|i: int| 0 <= i < s.len() ==> s[i] != DELIM
}

/// The record that splitting and normalization make of `line`.
pub open spec fn parts_in(c: ConfigView, line: Seq<u8>) -> Parts {
    parts_of(line, c.replace, c.bad, c.lower_login).unwrap()
}

/// The host of a normalized endpoint: what follows `https://`.
pub open spec fn host_in(c: ConfigView, line: Seq<u8>) -> Seq<u8> {
    parts_in(c, line).url.subrange(8, parts_in(c, line).url.len() as int)
}

/// The endpoint fragment of a canonical line: `https://host[:port]`.
pub open spec fn host_fragment(h: Seq<u8>, port: Option<u16>) -> Seq<u8> {
    match port {
        Some(p) => https_prefix() + h + seq![DELIM] + decimal_of(p as nat),
        None => https_prefix() + h,
    }
}

proof fn lemma_decimal_no_delim(n: nat)
    ensures
        no_delim(decimal_of(n)),
    decreases n,
{
    if n >= 10 {
        lemma_decimal_no_delim(n / 10);
    }
}

/// Closed fields hold no delimiter, nor does the open one while fewer than
/// five are closed.
proof fn lemma_scan_fields_clean(s: Seq<u8>)
    ensures
        forall|j: int| 0 <= j < scan(s).0.len() ==> no_delim(#[trigger] scan(s).0[j]),
        scan(s).0.len() < 5 ==> no_delim(scan(s).1),
    decreases s.len(),
{
    if s.len() > 0 {
        lemma_scan_fields_clean(s.drop_last());
    }
}

proof fn lemma_scan_append(s: Seq<u8>, t: Seq<u8>)
    requires
        no_delim(t) || scan(s).0.len() == 5,
    ensures
        scan(s + t) == (scan(s).0, scan(s).1 + t),
    decreases t.len(),
{
    if t.len() == 0 {
        assert(s + t =~= s);
        assert(scan(s).1 + t =~= scan(s).1);
    } else {
        let u = t.drop_last();
        assert((s + t).drop_last() =~= s + u);
        lemma_scan_append(s, u);
        assert((scan(s).1 + u).push(t.last()) =~= scan(s).1 + t);
    }
}

proof fn lemma_join_push(q: Seq<Seq<u8>>, x: Seq<u8>)
    requires
        q.len() >= 1,
    ensures
        join(q.push(x)) == join(q) + seq![DELIM] + x,
{
    assert(q.push(x).drop_last() =~= q);
}

/// Fields joined with the delimiter split back into the same fields.
proof fn lemma_fields_of_join(q: Seq<Seq<u8>>)
    requires
        1 <= q.len() <= 6,
        forall|j: int| 0 <= j < q.len() - 1 ==> no_delim(#[trigger] q[j]),
        q.len() < 6 ==> no_delim(q.last()),
    ensures
        scan(join(q)) == (q.drop_last(), q.last()),
    decreases q.len(),
{
    let e = Seq::<u8>::empty();
    if q.len() == 1 {
        lemma_scan_append(e, q[0]);
        assert(e + q[0] =~= q[0]);
        assert(e + q[0] =~= q[0]);
        assert(q.drop_last() =~= Seq::<Seq<u8>>::empty());
        assert(scan(e).1 + q[0] =~= q[0]);
    } else {
        let r = q.drop_last();
        assert(r.last() == q[q.len() - 2]);
        lemma_fields_of_join(r);
        let a = join(r).push(DELIM);
        assert(a.drop_last() =~= join(r));
        assert(r.drop_last().push(r.last()) =~= r);
        lemma_scan_append(a, q.last());
        assert(join(q) =~= a + q.last());
        assert(e + q.last() =~= q.last());
    }
}

/// What splitting and normalization leave in an `Http` record: a login
/// without delimiter, already sanitized password and already lowered login,
/// and an endpoint `https://` + host.
proof fn lemma_http_parts(c: ConfigView, line: Seq<u8>)
    requires
        parts_of(line, c.replace, c.bad, c.lower_login) is Ok,
        parts_in(c, line).linetype == LineEnum::Http,
    ensures
        no_delim(parts_in(c, line).login),
        strip(parts_in(c, line).password, c.bad) == parts_in(c, line).password,
        c.lower_login ==> lower(parts_in(c, line).login) == parts_in(c, line).login,
        parts_in(c, line).url == https_prefix() + host_in(c, line),
{
    let p = parts_in(c, line);
    let cl = canonical(line, c.replace);
    let t = classify(cl).0;
    let l = classify(cl).1;
    let f = ordered_fields(t, fields(l));
    let k = f.len();
    lemma_delimiter_count_splits(line, c.replace);
    lemma_scan_fields_clean(l);
    let raw_login = f[k - 2];
    if t == LineEnum::ReversedHttp {
        assert(raw_login == fields(l)[1]);
        assert(raw_login == scan(l).0[1]);
    } else {
        assert(raw_login == scan(l).0[k - 2]);
    }
    assert(no_delim(raw_login));
    assert forall|i: int| 0 <= i < p.login.len() implies p.login[i] != DELIM by {
        if c.lower_login {
            assert(p.login[i] == lower_byte(raw_login[i]));
        }
    }
    lemma_strip_idempotent(f[k - 1], c.bad);
    if c.lower_login {
        lemma_lower_idempotent(raw_login);
    }
    let frag0 = join(f.subrange(0, k - 2));
    let hp = endpoint_host_of(frag0).unwrap();
    assert(p.url == https_prefix() + hp.0);
    assert(host_in(c, line) =~= hp.0);
}

/// How the canonical line of an `Http` record splits again.
proof fn lemma_canonical_split(h: Seq<u8>, port: Option<u16>, login: Seq<u8>, password: Seq<u8>)
    requires
        no_delim(h),
        no_delim(login),
        no_delim(password),
    ensures
        ({
            let full = full_line_of(https_prefix() + h, port, login, password);
            let f = fields(full);
            &&& 3 <= delim_count(full) <= 4
            &&& classify(full) == (LineEnum::Http, full)
            &&& 4 <= f.len() <= 5
            &&& f[f.len() - 2] == login
            &&& f[f.len() - 1] == password
            &&& join(f.subrange(0, f.len() - 2)) == host_fragment(h, port)
        }),
{
    let word = seq![104u8, 116, 116, 112, 115];
    let host_field = seq![47u8, 47] + h;
    assert(https_prefix() =~= word + seq![DELIM] + seq![47u8, 47]);
    assert(no_delim(word));
    assert(no_delim(host_field));
    let q0 = seq![word].push(host_field);
    lemma_join_push(seq![word], host_field);
    assert(join(seq![word]) == word);
    assert(join(q0) =~= https_prefix() + h);
    let q1 = match port {
        Some(pt) => q0.push(decimal_of(pt as nat)),
        None => q0,
    };
    match port {
        Some(pt) => {
            lemma_decimal_no_delim(pt as nat);
            lemma_join_push(q0, decimal_of(pt as nat));
        },
        None => {},
    }
    assert(join(q1) =~= host_fragment(h, port));
    let q2 = q1.push(login);
    let q = q2.push(password);
    lemma_join_push(q1, login);
    lemma_join_push(q2, password);
    let full = full_line_of(https_prefix() + h, port, login, password);
    assert(join(q) =~= full);
    assert forall|j: int| 0 <= j < q.len() - 1 implies no_delim(#[trigger] q[j]) by {
        if j == 0 {
            assert(q[j] == word);
        } else if j == 1 {
            assert(q[j] == host_field);
        } else if j == q.len() - 2 {
            assert(q[j] == login);
        } else {
            assert(q[j] == decimal_of(port.unwrap() as nat));
        }
    }
    lemma_fields_of_join(q);
    assert(q.drop_last().push(q.last()) =~= q);
    assert(fields(full) == q);
    lemma_scan_count(full);
    assert(full.subrange(0, 8) =~= https_prefix());
    assert(q.subrange(0, q.len() - 2) =~= q1);
}

/// Re-validating the canonical line of a successful `Http` validation gives
/// the same result, where the line's bytes are all left alone by the
/// delimiter canonicalization, neither host nor password holds a delimiter,
/// and the URL parser gives back the same host and port for
/// `https://host[:port]`.
pub proof fn lemma_http_revalidation(c: ConfigView, line: Seq<u8>, v: Shapes)
    requires
        validated(c, line, v) is Ok,
        validated(c, line, v).unwrap().linetype == LineEnum::Http,
        canonical(validated(c, line, v).unwrap().full_line, c.replace) == validated(
            c,
            line,
            v,
        ).unwrap().full_line,
        no_delim(host_in(c, line)),
        no_delim(parts_in(c, line).password),
        endpoint_host_of(host_fragment(host_in(c, line), parts_in(c, line).port)) == Some(
            (host_in(c, line), parts_in(c, line).port),
        ),
    ensures
        validated(c, validated(c, line, v).unwrap().full_line, v) == validated(c, line, v),
{
    let p = parts_in(c, line);
    let h = host_in(c, line);
    lemma_http_parts(c, line);
    lemma_canonical_split(h, p.port, p.login, p.password);
    let full = validated(c, line, v).unwrap().full_line;
    assert(full == full_line_of(https_prefix() + h, p.port, p.login, p.password));
    let p2 = parts_of(full, c.replace, c.bad, c.lower_login);
    assert(p2 is Ok);
    assert(p2.unwrap() == p);
}

} // verus!
