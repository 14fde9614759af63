//! Verified byte-level steps of the pipeline.
use crate::enums::LineEnum;
use crate::model::{
    android_marker, android_prefix, canonical, classify, decimal_of, delim_count, fields,
    http_prefix, https_prefix, join, lower, scan, starts_with, strip, DELIM,
};
use crate::outside::find;
use vstd::prelude::*;

verus! {

/// Appends the bytes of `src` to `dst`.
pub(crate) fn append_bytes(dst: &mut Vec<u8>, src: &[u8])
    ensures
        final(dst)@ == old(dst)@ + src@,
{
    let mut i: usize = 0;
    while i < src.len()
        invariant
            i <= src@.len(),
            dst@ == old(dst)@ + src@.subrange(0, i as int),
        decreases src.len() - i,
    {
        dst.push(src[i]);
        i += 1;
        proof {
            assert(dst@ =~= old(dst)@ + src@.subrange(0, i as int));
        }
    }
    proof {
        assert(src@.subrange(0, src@.len() as int) =~= src@);
    }
}

/// Copy of `src` as a vector.
pub(crate) fn to_vec(src: &[u8]) -> (r: Vec<u8>)
    ensures
        r@ == src@,
{
    let mut r: Vec<u8> = Vec::new();
    append_bytes(&mut r, src);
    proof {
        assert(r@ =~= src@);
    }
    r
}

fn member(set: &[u8], b: u8) -> (r: bool)
    ensures
        r == set@.contains(b),
{
    let mut j: usize = 0;
    while j < set.len()
        invariant
            j <= set@.len(),
            forall|k: int| 0 <= k < j ==> set@[k] != b,
        decreases set.len() - j,
    {
        if set[j] == b {
            return true;
        }
        j += 1;
    }
    false
}

/// Working copy of `line` in which every byte of `set` is the delimiter.
pub fn canonicalize(line: &[u8], set: &[u8]) -> (r: Vec<u8>)
    ensures
        r@ == canonical(line@, set@),
{
    let mut r: Vec<u8> = Vec::with_capacity(line.len());
    let mut i: usize = 0;
    while i < line.len()
        invariant
            i <= line@.len(),
            r@ =~= canonical(line@.subrange(0, i as int), set@),
        decreases line.len() - i,
    {
        let b = line[i];
        if member(set, b) {
            r.push(DELIM);
        } else {
            r.push(b);
        }
        i += 1;
        proof {
            assert(r@ =~= canonical(line@.subrange(0, i as int), set@));
        }
    }
    proof {
        assert(line@.subrange(0, line@.len() as int) =~= line@);
    }
    r
}

/// Number of delimiters in `s`.
pub fn count_delims(s: &[u8]) -> (r: usize)
    ensures
        r == delim_count(s@),
{
    let mut n: usize = 0;
    let mut i: usize = 0;
    while i < s.len()
        invariant
            i <= s@.len(),
            n == delim_count(s@.subrange(0, i as int)),
            n <= i,
        decreases s.len() - i,
    {
        proof {
            assert(s@.subrange(0, i + 1).drop_last() =~= s@.subrange(0, i as int));
        }
        if s[i] == DELIM {
            n += 1;
        }
        i += 1;
    }
    proof {
        assert(s@.subrange(0, s@.len() as int) =~= s@);
    }
    n
}

fn http_bytes() -> (r: Vec<u8>)
    ensures
        r@ == http_prefix(),
{
    let r = vec![104u8, 116, 116, 112, 58, 47, 47];
    proof {
        assert(r@ =~= http_prefix());
    }
    r
}

pub(crate) fn https_bytes() -> (r: Vec<u8>)
    ensures
        r@ == https_prefix(),
{
    let r = vec![104u8, 116, 116, 112, 115, 58, 47, 47];
    proof {
        assert(r@ =~= https_prefix());
    }
    r
}

fn android_bytes() -> (r: Vec<u8>)
    ensures
        r@ == android_prefix(),
{
    let r = vec![97u8, 110, 100, 114, 111, 105, 100, 58, 47, 47];
    proof {
        assert(r@ =~= android_prefix());
    }
    r
}

fn marker_bytes() -> (r: Vec<u8>)
    ensures
        r@ == android_marker(),
{
    let r = vec![61u8, 61, 64];
    proof {
        assert(r@ =~= android_marker());
    }
    r
}

fn has_prefix(s: &[u8], p: &[u8]) -> (r: bool)
    ensures
        r == starts_with(s@, p@),
{
    if p.len() > s.len() {
        return false;
    }
    let mut i: usize = 0;
    while i < p.len()
        invariant
            p@.len() <= s@.len(),
            i <= p@.len(),
            forall|k: int| 0 <= k < i ==> s@[k] == p@[k],
        decreases p.len() - i,
    {
        if s[i] != p[i] {
            proof {
                assert(s@.subrange(0, p@.len() as int)[i as int] != p@[i as int]);
            }
            return false;
        }
        i += 1;
    }
    proof {
        assert(s@.subrange(0, p@.len() as int) =~= p@);
    }
    true
}

/// Layout of a canonicalized line, with the Android scheme prepended where
/// only the `==@` marker shows it.
pub fn classify_line(line: &[u8]) -> (r: (LineEnum, Vec<u8>))
    ensures
        (r.0, r.1@) == classify(line@),
{
    let http = http_bytes();
    let https = https_bytes();
    let android = android_bytes();
    if has_prefix(line, http.as_slice()) || has_prefix(line, https.as_slice()) {
        (LineEnum::Http, to_vec(line))
    } else if has_prefix(line, android.as_slice()) {
        (LineEnum::Android, to_vec(line))
    } else if find(line, marker_bytes().as_slice()).is_some() {
        let mut r = android;
        append_bytes(&mut r, line);
        (LineEnum::Android, r)
    } else if find(line, http.as_slice()).is_some() || find(line, https.as_slice()).is_some() {
        (LineEnum::ReversedHttp, to_vec(line))
    } else {
        (LineEnum::WithoutHttp, to_vec(line))
    }
}

/// The views of a sequence of byte vectors.
pub open spec fn views(v: Seq<Vec<u8>>) -> Seq<Seq<u8>> {
    v.map_values(|x: Vec<u8>| x@)
}

/// Splits `s` on the delimiter into at most six fields; further delimiters
/// stay in the last field.
pub fn split_fields(s: &[u8]) -> (r: Vec<Vec<u8>>)
    ensures
        views(r@) == fields(s@),
{
    let mut done: Vec<Vec<u8>> = Vec::new();
    let mut cur: Vec<u8> = Vec::new();
    let mut i: usize = 0;
    while i < s.len()
        invariant
            i <= s@.len(),
            views(done@) == scan(s@.subrange(0, i as int)).0,
            cur@ == scan(s@.subrange(0, i as int)).1,
        decreases s.len() - i,
    {
        proof {
            assert(s@.subrange(0, i + 1).drop_last() =~= s@.subrange(0, i as int));
        }
        let b = s[i];
        if b == DELIM && done.len() < 5 {
            let old_cur = cur;
            proof {
                assert(views(done@.push(old_cur)) =~= views(done@).push(old_cur@));
            }
            done.push(old_cur);
            cur = Vec::new();
        } else {
            cur.push(b);
        }
        i += 1;
    }
    proof {
        assert(s@.subrange(0, s@.len() as int) =~= s@);
        assert(views(done@.push(cur)) =~= views(done@).push(cur@));
    }
    done.push(cur);
    done
}

/// The fields `p[lo..hi]` joined with the delimiter.
pub fn join_fields(p: &Vec<Vec<u8>>, lo: usize, hi: usize) -> (r: Vec<u8>)
    requires
        lo <= hi <= p@.len(),
    ensures
        r@ == join(views(p@).subrange(lo as int, hi as int)),
{
    let mut r: Vec<u8> = Vec::new();
    let mut j: usize = lo;
    while j < hi
        invariant
            lo <= j <= hi <= p@.len(),
            r@ == join(views(p@).subrange(lo as int, j as int)),
        decreases hi - j,
    {
        let ghost q = views(p@).subrange(lo as int, j as int + 1);
        proof {
            assert(q.drop_last() =~= views(p@).subrange(lo as int, j as int));
        }
        if j > lo {
            r.push(DELIM);
        }
        append_bytes(&mut r, p[j].as_slice());
        proof {
            if j > lo {
                assert(r@ =~= join(q.drop_last()) + seq![DELIM] + q.last());
            } else {
                assert(r@ =~= q[0]);
            }
        }
        j += 1;
    }
    r
}

/// Copy of `s` with every byte of `bad_chars` removed.
pub fn fast_filter(s: &[u8], bad_chars: &[u8]) -> (r: Vec<u8>)
    ensures
        r@ == strip(s@, bad_chars@),
{
    let mut r: Vec<u8> = Vec::with_capacity(s.len());
    let mut i: usize = 0;
    while i < s.len()
        invariant
            i <= s@.len(),
            r@ == strip(s@.subrange(0, i as int), bad_chars@),
        decreases s.len() - i,
    {
        proof {
            assert(s@.subrange(0, i + 1).drop_last() =~= s@.subrange(0, i as int));
        }
        let b = s[i];
        if !member(bad_chars, b) {
            r.push(b);
        }
        i += 1;
    }
    proof {
        assert(s@.subrange(0, s@.len() as int) =~= s@);
    }
    r
}

/// ASCII lower case of `s`.
pub fn ascii_lower(s: &[u8]) -> (r: Vec<u8>)
    ensures
        r@ == lower(s@),
{
    let mut r: Vec<u8> = Vec::with_capacity(s.len());
    let mut i: usize = 0;
    while i < s.len()
        invariant
            i <= s@.len(),
            r@ =~= lower(s@.subrange(0, i as int)),
        decreases s.len() - i,
    {
        let b = s[i];
        if 65 <= b && b <= 90 {
            r.push(b + 32);
        } else {
            r.push(b);
        }
        i += 1;
        proof {
            assert(r@ =~= lower(s@.subrange(0, i as int)));
        }
    }
    proof {
        assert(s@.subrange(0, s@.len() as int) =~= s@);
    }
    r
}

/// Decimal digits of `n`.
pub fn decimal(n: u16) -> (r: Vec<u8>)
    ensures
        r@ == decimal_of(n as nat),
    decreases n,
{
    if n < 10 {
        let r = vec![48 + n as u8];
        proof {
            assert(r@ =~= decimal_of(n as nat));
        }
        r
    } else {
        let mut r = decimal(n / 10);
        r.push(48 + (n % 10) as u8);
        r
    }
}

} // verus!
