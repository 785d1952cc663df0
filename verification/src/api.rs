//! The typed request/response contract layer and the client's decision
//! logic: each request kind carries its fixed method name, its JSON body,
//! and the parser for its response payload; responses arrive in the
//! success/error envelope.
use vstd::prelude::*;

use crate::error::Error;
use crate::json::{
    is_digit, is_ws, jbool, jnum, jstr, lemma_jnum_digits, lemma_p_bool_complete,
    lemma_p_char_complete, lemma_p_lit_complete, lemma_p_strarr_complete, lemma_p_string_complete,
    lemma_p_u64_complete, opt_str_view, opt_strs_view, opt_view, p_bool, p_char, p_lit, p_strarr,
    p_string, p_u64, push_lit, px_bool, px_char, px_strarr, px_string, px_u64, px_ws, skip_ws,
    str_eq, strarr_json, write_jnum, write_jstr,
};
use crate::model::{
    code_from_spec, DelRequest, ErrorCode, GetRequest, ListRequest, ListResponse, ListResponseV,
    PostRequest, PostResponse, PostResponseV, PutRequest, RespV, Response, URLRecord, URLRecordV,
    VerifyRequest, VerifyResponse, VerifyResponseV, VerifySingle,
};
use vstd::string::StrSliceExecFns;

verus! {

// ---------------------------------------------------------------------------
// Optional trailing fields of request bodies
// ---------------------------------------------------------------------------

pub open spec fn ttl_json(o: Option<u64>) -> Seq<char> {
    match o {
        Option::None => Seq::empty(),
        Option::Some(n) => ",\"ttl\":"@ + jnum(n as int),
    }
}

// ---------------------------------------------------------------------------
// Response payload parsers
//
// Each response object is read member by member, in any order, each
// member at most once; the closing brace checks the shape's fields.
// ---------------------------------------------------------------------------

/// Accumulator step for objects over the members `token`, `key`,
/// `value`, `expire`.
pub open spec fn p_rec_step(
    name: Seq<char>,
    t: Seq<char>,
    tok: Option<Seq<char>>,
    k: Option<Seq<char>>,
    v: Option<Seq<char>>,
    e: Option<u64>,
) -> Option<((Option<Seq<char>>, Option<Seq<char>>, Option<Seq<char>>, Option<u64>), Seq<char>)> {
    if name == "token"@ {
        if tok is Some {
            Option::None
        } else {
            match p_string(t) {
                Option::Some(sp) => Option::Some(((Option::Some(sp.0), k, v, e), sp.1)),
                Option::None => Option::None,
            }
        }
    } else if name == "key"@ {
        if k is Some {
            Option::None
        } else {
            match p_string(t) {
                Option::Some(sp) => Option::Some(((tok, Option::Some(sp.0), v, e), sp.1)),
                Option::None => Option::None,
            }
        }
    } else if name == "value"@ {
        if v is Some {
            Option::None
        } else {
            match p_string(t) {
                Option::Some(sp) => Option::Some(((tok, k, Option::Some(sp.0), e), sp.1)),
                Option::None => Option::None,
            }
        }
    } else if name == "expire"@ {
        if e is Some {
            Option::None
        } else {
            match p_u64(t) {
                Option::Some(up) => Option::Some(((tok, k, v, Option::Some(up.0)), up.1)),
                Option::None => Option::None,
            }
        }
    } else {
        Option::None
    }
}

/// Gather the members of a record-shaped object up to its closing brace.
pub open spec fn p_rec_members(
    t: Seq<char>,
    tok: Option<Seq<char>>,
    k: Option<Seq<char>>,
    v: Option<Seq<char>>,
    e: Option<u64>,
) -> Option<((Option<Seq<char>>, Option<Seq<char>>, Option<Seq<char>>, Option<u64>), Seq<char>)>
    decreases t.len(),
{
    match p_string(skip_ws(t)) {
        Option::Some(np) => {
            let t1 = skip_ws(np.1);
            match p_char(t1, ':') {
                Option::Some(t2) => match p_rec_step(np.0, skip_ws(t2), tok, k, v, e) {
                    Option::Some(st) => {
                        let t4 = skip_ws(st.1);
                        match p_char(t4, ',') {
                            Option::Some(t5) => if t5.len() < t.len() {
                                p_rec_members(t5, st.0.0, st.0.1, st.0.2, st.0.3)
                            } else {
                                Option::None
                            },
                            Option::None => match p_char(t4, '}') {
                                Option::Some(t6) => Option::Some((st.0, t6)),
                                Option::None => Option::None,
                            },
                        }
                    },
                    Option::None => Option::None,
                },
                Option::None => Option::None,
            }
        },
        Option::None => Option::None,
    }
}

pub open spec fn p_urlrecord(t: Seq<char>) -> Option<(URLRecordV, Seq<char>)> {
    match p_char(t, '{') {
        Option::Some(t1) => match p_rec_members(
            t1,
            Option::None,
            Option::None,
            Option::None,
            Option::None,
        ) {
            Option::Some(mp) => match (mp.0.0, mp.0.1, mp.0.2) {
                (Option::None, Option::Some(k), Option::Some(v)) => Option::Some(
                    (URLRecordV { key: k, value: v, expire: mp.0.3 }, mp.1),
                ),
                _ => Option::None,
            },
            Option::None => Option::None,
        },
        Option::None => Option::None,
    }
}

pub open spec fn p_postresp(t: Seq<char>) -> Option<(PostResponseV, Seq<char>)> {
    match p_char(t, '{') {
        Option::Some(t1) => match p_rec_members(
            t1,
            Option::None,
            Option::None,
            Option::None,
            Option::None,
        ) {
            Option::Some(mp) => match (mp.0.0, mp.0.1, mp.0.2) {
                (Option::Some(tok), Option::Some(k), Option::Some(v)) => Option::Some(
                    (PostResponseV { token: tok, key: k, value: v, expire: mp.0.3 }, mp.1),
                ),
                _ => Option::None,
            },
            Option::None => Option::None,
        },
        Option::None => Option::None,
    }
}

#[verifier::rlimit(100)]
pub fn px_rec_step(
    s: &str,
    name: &String,
    i: usize,
    tok: Option<String>,
    k: Option<String>,
    v: Option<String>,
    e: Option<u64>,
) -> (r: Option<((Option<String>, Option<String>, Option<String>, Option<u64>), usize)>)
    requires
        i <= s@.len(),
    ensures
        match p_rec_step(
            name@,
            s@.skip(i as int),
            opt_str_view(tok),
            opt_str_view(k),
            opt_str_view(v),
            e,
        ) {
            Option::Some(p) => r matches Some(q) && opt_str_view(q.0.0) == p.0.0 && opt_str_view(
                q.0.1,
            ) == p.0.1 && opt_str_view(q.0.2) == p.0.2 && q.0.3 == p.0.3 && i <= q.1 && q.1
                <= s@.len() && s@.skip(q.1 as int) == p.1,
            Option::None => r is None,
        },
{
    if str_eq(name.as_str(), "token") {
        if tok.is_some() {
            None
        } else {
            match px_string(s, i) {
                Some(p) => Some(((Some(p.0), k, v, e), p.1)),
                None => None,
            }
        }
    } else if str_eq(name.as_str(), "key") {
        if k.is_some() {
            None
        } else {
            match px_string(s, i) {
                Some(p) => Some(((tok, Some(p.0), v, e), p.1)),
                None => None,
            }
        }
    } else if str_eq(name.as_str(), "value") {
        if v.is_some() {
            None
        } else {
            match px_string(s, i) {
                Some(p) => Some(((tok, k, Some(p.0), e), p.1)),
                None => None,
            }
        }
    } else if str_eq(name.as_str(), "expire") {
        if e.is_some() {
            None
        } else {
            match px_u64(s, i) {
                Some(p) => Some(((tok, k, v, Some(p.0)), p.1)),
                None => None,
            }
        }
    } else {
        None
    }
}

#[verifier::rlimit(100)]
pub fn px_rec_members(
    s: &str,
    i: usize,
    tok: Option<String>,
    k: Option<String>,
    v: Option<String>,
    e: Option<u64>,
) -> (r: Option<((Option<String>, Option<String>, Option<String>, Option<u64>), usize)>)
    requires
        i <= s@.len(),
    ensures
        match p_rec_members(
            s@.skip(i as int),
            opt_str_view(tok),
            opt_str_view(k),
            opt_str_view(v),
            e,
        ) {
            Option::Some(p) => r matches Some(q) && opt_str_view(q.0.0) == p.0.0 && opt_str_view(
                q.0.1,
            ) == p.0.1 && opt_str_view(q.0.2) == p.0.2 && q.0.3 == p.0.3 && i <= q.1 && q.1
                <= s@.len() && s@.skip(q.1 as int) == p.1,
            Option::None => r is None,
        },
    decreases s@.len() - i,
{
    let i0 = px_ws(s, i);
    let (name, j1) = match px_string(s, i0) {
        Some(p) => p,
        None => { return None; },
    };
    let j2 = px_ws(s, j1);
    let j3 = match px_char(s, j2, ':') {
        Some(j) => j,
        None => { return None; },
    };
    let j4 = px_ws(s, j3);
    let (acc, j5) = match px_rec_step(s, &name, j4, tok, k, v, e) {
        Some(x) => x,
        None => { return None; },
    };
    let (tok2, k2, v2, e2) = acc;
    let j6 = px_ws(s, j5);
    match px_char(s, j6, ',') {
        Some(j7) => {
            if j7 > i {
                px_rec_members(s, j7, tok2, k2, v2, e2)
            } else {
                proof {
                    assert(s@.skip(j7 as int).len() < s@.skip(i as int).len());
                }
                None
            }
        },
        None => match px_char(s, j6, '}') {
            Some(j7) => Some(((tok2, k2, v2, e2), j7)),
            None => None,
        },
    }
}

#[verifier::rlimit(100)]
pub fn px_urlrecord(s: &str, i: usize) -> (r: Option<(URLRecord, usize)>)
    requires
        i <= s@.len(),
    ensures
        match p_urlrecord(s@.skip(i as int)) {
            Option::Some(p) => r matches Some(q) && q.0@ == p.0 && i <= q.1 && q.1 <= s@.len()
                && s@.skip(q.1 as int) == p.1,
            Option::None => r is None,
        },
{
    let j1 = match px_char(s, i, '{') {
        Some(j) => j,
        None => { return None; },
    };
    match px_rec_members(s, j1, None, None, None, None) {
        Some(p) => {
            let ((tok, k, v, e), j2) = p;
            match (tok, k, v) {
                (None, Some(k2), Some(v2)) => Some(
                    (URLRecord { key: k2, value: v2, expire: e }, j2),
                ),
                _ => None,
            }
        },
        None => None,
    }
}

#[verifier::rlimit(100)]
pub fn px_postresp(s: &str, i: usize) -> (r: Option<(PostResponse, usize)>)
    requires
        i <= s@.len(),
    ensures
        match p_postresp(s@.skip(i as int)) {
            Option::Some(p) => r matches Some(q) && q.0@ == p.0 && i <= q.1 && q.1 <= s@.len()
                && s@.skip(q.1 as int) == p.1,
            Option::None => r is None,
        },
{
    let j1 = match px_char(s, i, '{') {
        Some(j) => j,
        None => { return None; },
    };
    match px_rec_members(s, j1, None, None, None, None) {
        Some(p) => {
            let ((tok, k, v, e), j2) = p;
            match (tok, k, v) {
                (Some(t2), Some(k2), Some(v2)) => Some(
                    (PostResponse { token: t2, key: k2, value: v2, expire: e }, j2),
                ),
                _ => None,
            }
        },
        None => None,
    }
}

/// Accumulator step for the listing response's members.
pub open spec fn p_list_step(
    name: Seq<char>,
    t: Seq<char>,
    keys: Option<Seq<Seq<char>>>,
    lc: Option<bool>,
    cur: Option<Seq<char>>,
) -> Option<((Option<Seq<Seq<char>>>, Option<bool>, Option<Seq<char>>), Seq<char>)> {
    if name == "keys"@ {
        if keys is Some {
            Option::None
        } else {
            match p_strarr(t) {
                Option::Some(ap) => Option::Some(((Option::Some(ap.0), lc, cur), ap.1)),
                Option::None => Option::None,
            }
        }
    } else if name == "list_complete"@ {
        if lc is Some {
            Option::None
        } else {
            match p_bool(t) {
                Option::Some(bp) => Option::Some(((keys, Option::Some(bp.0), cur), bp.1)),
                Option::None => Option::None,
            }
        }
    } else if name == "cursor"@ {
        if cur is Some {
            Option::None
        } else {
            match p_string(t) {
                Option::Some(sp) => Option::Some(((keys, lc, Option::Some(sp.0)), sp.1)),
                Option::None => Option::None,
            }
        }
    } else {
        Option::None
    }
}

pub open spec fn p_list_members(
    t: Seq<char>,
    keys: Option<Seq<Seq<char>>>,
    lc: Option<bool>,
    cur: Option<Seq<char>>,
) -> Option<(ListResponseV, Seq<char>)>
    decreases t.len(),
{
    match p_string(skip_ws(t)) {
        Option::Some(np) => {
            let t1 = skip_ws(np.1);
            match p_char(t1, ':') {
                Option::Some(t2) => match p_list_step(np.0, skip_ws(t2), keys, lc, cur) {
                    Option::Some(st) => {
                        let t4 = skip_ws(st.1);
                        match p_char(t4, ',') {
                            Option::Some(t5) => if t5.len() < t.len() {
                                p_list_members(t5, st.0.0, st.0.1, st.0.2)
                            } else {
                                Option::None
                            },
                            Option::None => match p_char(t4, '}') {
                                Option::Some(t6) => match (st.0.0, st.0.1, st.0.2) {
                                    (
                                        Option::Some(ks),
                                        Option::Some(l2),
                                        Option::Some(c2),
                                    ) => Option::Some(
                                        (
                                            ListResponseV {
                                                keys: ks,
                                                list_complete: l2,
                                                cursor: c2,
                                            },
                                            t6,
                                        ),
                                    ),
                                    _ => Option::None,
                                },
                                Option::None => Option::None,
                            },
                        }
                    },
                    Option::None => Option::None,
                },
                Option::None => Option::None,
            }
        },
        Option::None => Option::None,
    }
}

pub open spec fn p_listresp(t: Seq<char>) -> Option<(ListResponseV, Seq<char>)> {
    match p_char(t, '{') {
        Option::Some(t1) => p_list_members(t1, Option::None, Option::None, Option::None),
        Option::None => Option::None,
    }
}

#[verifier::rlimit(100)]
pub fn px_list_step(
    s: &str,
    name: &String,
    i: usize,
    keys: Option<Vec<String>>,
    lc: Option<bool>,
    cur: Option<String>,
) -> (r: Option<((Option<Vec<String>>, Option<bool>, Option<String>), usize)>)
    requires
        i <= s@.len(),
    ensures
        match p_list_step(name@, s@.skip(i as int), opt_strs_view(keys), lc, opt_str_view(cur)) {
            Option::Some(p) => r matches Some(q) && opt_strs_view(q.0.0) == p.0.0 && q.0.1
                == p.0.1 && opt_str_view(q.0.2) == p.0.2 && i <= q.1 && q.1 <= s@.len()
                && s@.skip(q.1 as int) == p.1,
            Option::None => r is None,
        },
{
    if str_eq(name.as_str(), "keys") {
        if keys.is_some() {
            None
        } else {
            match px_strarr(s, i) {
                Some(p) => Some(((Some(p.0), lc, cur), p.1)),
                None => None,
            }
        }
    } else if str_eq(name.as_str(), "list_complete") {
        if lc.is_some() {
            None
        } else {
            match px_bool(s, i) {
                Some(p) => Some(((keys, Some(p.0), cur), p.1)),
                None => None,
            }
        }
    } else if str_eq(name.as_str(), "cursor") {
        if cur.is_some() {
            None
        } else {
            match px_string(s, i) {
                Some(p) => Some(((keys, lc, Some(p.0)), p.1)),
                None => None,
            }
        }
    } else {
        None
    }
}

#[verifier::rlimit(100)]
pub fn px_list_members(
    s: &str,
    i: usize,
    keys: Option<Vec<String>>,
    lc: Option<bool>,
    cur: Option<String>,
) -> (r: Option<(ListResponse, usize)>)
    requires
        i <= s@.len(),
    ensures
        match p_list_members(s@.skip(i as int), opt_strs_view(keys), lc, opt_str_view(cur)) {
            Option::Some(p) => r matches Some(q) && q.0@ == p.0 && i <= q.1 && q.1 <= s@.len()
                && s@.skip(q.1 as int) == p.1,
            Option::None => r is None,
        },
    decreases s@.len() - i,
{
    let i0 = px_ws(s, i);
    let (name, j1) = match px_string(s, i0) {
        Some(p) => p,
        None => { return None; },
    };
    let j2 = px_ws(s, j1);
    let j3 = match px_char(s, j2, ':') {
        Some(j) => j,
        None => { return None; },
    };
    let j4 = px_ws(s, j3);
    let (acc, j5) = match px_list_step(s, &name, j4, keys, lc, cur) {
        Some(x) => x,
        None => { return None; },
    };
    let (keys2, lc2, cur2) = acc;
    let j6 = px_ws(s, j5);
    match px_char(s, j6, ',') {
        Some(j7) => {
            if j7 > i {
                px_list_members(s, j7, keys2, lc2, cur2)
            } else {
                proof {
                    assert(s@.skip(j7 as int).len() < s@.skip(i as int).len());
                }
                None
            }
        },
        None => match px_char(s, j6, '}') {
            Some(j7) => match (keys2, lc2, cur2) {
                (Some(ks), Some(l2), Some(c2)) => Some(
                    (ListResponse { keys: ks, list_complete: l2, cursor: c2 }, j7),
                ),
                _ => None,
            },
            None => None,
        },
    }
}

#[verifier::rlimit(100)]
pub fn px_listresp(s: &str, i: usize) -> (r: Option<(ListResponse, usize)>)
    requires
        i <= s@.len(),
    ensures
        match p_listresp(s@.skip(i as int)) {
            Option::Some(p) => r matches Some(q) && q.0@ == p.0 && i <= q.1 && q.1 <= s@.len()
                && s@.skip(q.1 as int) == p.1,
            Option::None => r is None,
        },
{
    match px_char(s, i, '{') {
        Some(j1) => px_list_members(s, j1, None, None, None),
        None => None,
    }
}

/// Accumulator step for the verification response's members.
pub open spec fn p_verify_step(
    name: Seq<char>,
    t: Seq<char>,
    m: Option<Seq<Seq<char>>>,
    u: Option<Seq<Seq<char>>>,
    mi: Option<Seq<Seq<char>>>,
) -> Option<
    ((Option<Seq<Seq<char>>>, Option<Seq<Seq<char>>>, Option<Seq<Seq<char>>>), Seq<char>),
> {
    if name == "matched"@ {
        if m is Some {
            Option::None
        } else {
            match p_strarr(t) {
                Option::Some(ap) => Option::Some(((Option::Some(ap.0), u, mi), ap.1)),
                Option::None => Option::None,
            }
        }
    } else if name == "unmatched"@ {
        if u is Some {
            Option::None
        } else {
            match p_strarr(t) {
                Option::Some(ap) => Option::Some(((m, Option::Some(ap.0), mi), ap.1)),
                Option::None => Option::None,
            }
        }
    } else if name == "missing"@ {
        if mi is Some {
            Option::None
        } else {
            match p_strarr(t) {
                Option::Some(ap) => Option::Some(((m, u, Option::Some(ap.0)), ap.1)),
                Option::None => Option::None,
            }
        }
    } else {
        Option::None
    }
}

pub open spec fn p_verify_members(
    t: Seq<char>,
    m: Option<Seq<Seq<char>>>,
    u: Option<Seq<Seq<char>>>,
    mi: Option<Seq<Seq<char>>>,
) -> Option<(VerifyResponseV, Seq<char>)>
    decreases t.len(),
{
    match p_string(skip_ws(t)) {
        Option::Some(np) => {
            let t1 = skip_ws(np.1);
            match p_char(t1, ':') {
                Option::Some(t2) => match p_verify_step(np.0, skip_ws(t2), m, u, mi) {
                    Option::Some(st) => {
                        let t4 = skip_ws(st.1);
                        match p_char(t4, ',') {
                            Option::Some(t5) => if t5.len() < t.len() {
                                p_verify_members(t5, st.0.0, st.0.1, st.0.2)
                            } else {
                                Option::None
                            },
                            Option::None => match p_char(t4, '}') {
                                Option::Some(t6) => match (st.0.0, st.0.1, st.0.2) {
                                    (
                                        Option::Some(m2),
                                        Option::Some(u2),
                                        Option::Some(mi2),
                                    ) => Option::Some(
                                        (
                                            VerifyResponseV {
                                                matched: m2,
                                                unmatched: u2,
                                                missing: mi2,
                                            },
                                            t6,
                                        ),
                                    ),
                                    _ => Option::None,
                                },
                                Option::None => Option::None,
                            },
                        }
                    },
                    Option::None => Option::None,
                },
                Option::None => Option::None,
            }
        },
        Option::None => Option::None,
    }
}

pub open spec fn p_verifyresp(t: Seq<char>) -> Option<(VerifyResponseV, Seq<char>)> {
    match p_char(t, '{') {
        Option::Some(t1) => p_verify_members(t1, Option::None, Option::None, Option::None),
        Option::None => Option::None,
    }
}

#[verifier::rlimit(100)]
pub fn px_verify_step(
    s: &str,
    name: &String,
    i: usize,
    m: Option<Vec<String>>,
    u: Option<Vec<String>>,
    mi: Option<Vec<String>>,
) -> (r: Option<((Option<Vec<String>>, Option<Vec<String>>, Option<Vec<String>>), usize)>)
    requires
        i <= s@.len(),
    ensures
        match p_verify_step(
            name@,
            s@.skip(i as int),
            opt_strs_view(m),
            opt_strs_view(u),
            opt_strs_view(mi),
        ) {
            Option::Some(p) => r matches Some(q) && opt_strs_view(q.0.0) == p.0.0
                && opt_strs_view(q.0.1) == p.0.1 && opt_strs_view(q.0.2) == p.0.2 && i <= q.1
                && q.1 <= s@.len() && s@.skip(q.1 as int) == p.1,
            Option::None => r is None,
        },
{
    if str_eq(name.as_str(), "matched") {
        if m.is_some() {
            None
        } else {
            match px_strarr(s, i) {
                Some(p) => Some(((Some(p.0), u, mi), p.1)),
                None => None,
            }
        }
    } else if str_eq(name.as_str(), "unmatched") {
        if u.is_some() {
            None
        } else {
            match px_strarr(s, i) {
                Some(p) => Some(((m, Some(p.0), mi), p.1)),
                None => None,
            }
        }
    } else if str_eq(name.as_str(), "missing") {
        if mi.is_some() {
            None
        } else {
            match px_strarr(s, i) {
                Some(p) => Some(((m, u, Some(p.0)), p.1)),
                None => None,
            }
        }
    } else {
        None
    }
}

#[verifier::rlimit(100)]
pub fn px_verify_members(
    s: &str,
    i: usize,
    m: Option<Vec<String>>,
    u: Option<Vec<String>>,
    mi: Option<Vec<String>>,
) -> (r: Option<(VerifyResponse, usize)>)
    requires
        i <= s@.len(),
    ensures
        match p_verify_members(
            s@.skip(i as int),
            opt_strs_view(m),
            opt_strs_view(u),
            opt_strs_view(mi),
        ) {
            Option::Some(p) => r matches Some(q) && q.0@ == p.0 && i <= q.1 && q.1 <= s@.len()
                && s@.skip(q.1 as int) == p.1,
            Option::None => r is None,
        },
    decreases s@.len() - i,
{
    let i0 = px_ws(s, i);
    let (name, j1) = match px_string(s, i0) {
        Some(p) => p,
        None => { return None; },
    };
    let j2 = px_ws(s, j1);
    let j3 = match px_char(s, j2, ':') {
        Some(j) => j,
        None => { return None; },
    };
    let j4 = px_ws(s, j3);
    let (acc, j5) = match px_verify_step(s, &name, j4, m, u, mi) {
        Some(x) => x,
        None => { return None; },
    };
    let (m2, u2, mi2) = acc;
    let j6 = px_ws(s, j5);
    match px_char(s, j6, ',') {
        Some(j7) => {
            if j7 > i {
                px_verify_members(s, j7, m2, u2, mi2)
            } else {
                proof {
                    assert(s@.skip(j7 as int).len() < s@.skip(i as int).len());
                }
                None
            }
        },
        None => match px_char(s, j6, '}') {
            Some(j7) => match (m2, u2, mi2) {
                (Some(a), Some(b), Some(c)) => Some(
                    (VerifyResponse { matched: a, unmatched: b, missing: c }, j7),
                ),
                _ => None,
            },
            None => None,
        },
    }
}

#[verifier::rlimit(100)]
pub fn px_verifyresp(s: &str, i: usize) -> (r: Option<(VerifyResponse, usize)>)
    requires
        i <= s@.len(),
    ensures
        match p_verifyresp(s@.skip(i as int)) {
            Option::Some(p) => r matches Some(q) && q.0@ == p.0 && i <= q.1 && q.1 <= s@.len()
                && s@.skip(q.1 as int) == p.1,
            Option::None => r is None,
        },
{
    match px_char(s, i, '{') {
        Some(j1) => px_verify_members(s, j1, None, None, None),
        None => None,
    }
}

// ---------------------------------------------------------------------------
// The request trait: method name, body, and response parser, statically bound
// ---------------------------------------------------------------------------

pub trait Req: Sized {
    type Resp: View;

    /// The fixed path segment naming the remote operation.
    spec fn method_name_spec() -> Seq<char>;

    /// The exact JSON body this request serializes to.
    spec fn body_json(&self) -> Seq<char>;

    /// The spec parser for this request's response payload.
    spec fn p_resp(t: Seq<char>) -> Option<(<Self::Resp as View>::V, Seq<char>)>;

    fn method_name() -> (r: &'static str)
        ensures
            r@ == Self::method_name_spec(),
    ;

    /// Serialize the request body; optional fields are omitted, never null.
    fn to_string(&self) -> (r: Result<String, Error>)
        ensures
            r matches Ok(b) && b@ == self.body_json(),
    ;

    fn parse_resp(s: &str, i: usize) -> (r: Option<(Self::Resp, usize)>)
        requires
            i <= s@.len(),
        ensures
            match Self::p_resp(s@.skip(i as int)) {
                Option::Some(p) => r matches Some(q) && q.0@ == p.0 && i <= q.1 && q.1
                    <= s@.len() && s@.skip(q.1 as int) == p.1,
                Option::None => r is None,
            },
    ;
}

impl Req for GetRequest {
    type Resp = URLRecord;

    open spec fn method_name_spec() -> Seq<char> {
        "get_record"@
    }

    open spec fn body_json(&self) -> Seq<char> {
        "{\"key\":"@ + jstr(self.key@) + "}"@
    }

    open spec fn p_resp(t: Seq<char>) -> Option<(URLRecordV, Seq<char>)> {
        p_urlrecord(t)
    }

    fn method_name() -> (r: &'static str) {
        "get_record"
    }

    fn to_string(&self) -> (r: Result<String, Error>) {
        let mut out = String::new();
        push_lit(&mut out, "{\"key\":");
        write_jstr(&mut out, self.key.as_str());
        push_lit(&mut out, "}");
        proof {
            assert(out@ =~= self.body_json());
        }
        Ok(out)
    }

    fn parse_resp(s: &str, i: usize) -> (r: Option<(URLRecord, usize)>) {
        px_urlrecord(s, i)
    }
}

impl Req for PostRequest {
    type Resp = PostResponse;

    open spec fn method_name_spec() -> Seq<char> {
        "new_record"@
    }

    open spec fn body_json(&self) -> Seq<char> {
        "{\"key\":"@ + jstr(self.key@) + ",\"value\":"@ + jstr(self.value@) + ttl_json(self.ttl)
            + "}"@
    }

    open spec fn p_resp(t: Seq<char>) -> Option<(PostResponseV, Seq<char>)> {
        p_postresp(t)
    }

    fn method_name() -> (r: &'static str) {
        "new_record"
    }

    fn to_string(&self) -> (r: Result<String, Error>) {
        let mut out = String::new();
        push_lit(&mut out, "{\"key\":");
        write_jstr(&mut out, self.key.as_str());
        push_lit(&mut out, ",\"value\":");
        write_jstr(&mut out, self.value.as_str());
        match &self.ttl {
            Some(n) => {
                push_lit(&mut out, ",\"ttl\":");
                write_jnum(&mut out, *n);
            },
            None => {},
        }
        push_lit(&mut out, "}");
        proof {
            assert(out@ =~= self.body_json());
        }
        Ok(out)
    }

    fn parse_resp(s: &str, i: usize) -> (r: Option<(PostResponse, usize)>) {
        px_postresp(s, i)
    }
}

impl Req for PutRequest {
    type Resp = PostResponse;

    open spec fn method_name_spec() -> Seq<char> {
        "update_record"@
    }

    open spec fn body_json(&self) -> Seq<char> {
        "{\"key\":"@ + jstr(self.key@) + ",\"value\":"@ + jstr(self.value@) + ",\"token\":"@
            + jstr(self.token@) + ttl_json(self.ttl) + "}"@
    }

    open spec fn p_resp(t: Seq<char>) -> Option<(PostResponseV, Seq<char>)> {
        p_postresp(t)
    }

    fn method_name() -> (r: &'static str) {
        "update_record"
    }

    fn to_string(&self) -> (r: Result<String, Error>) {
        let mut out = String::new();
        push_lit(&mut out, "{\"key\":");
        write_jstr(&mut out, self.key.as_str());
        push_lit(&mut out, ",\"value\":");
        write_jstr(&mut out, self.value.as_str());
        push_lit(&mut out, ",\"token\":");
        write_jstr(&mut out, self.token.as_str());
        match &self.ttl {
            Some(n) => {
                push_lit(&mut out, ",\"ttl\":");
                write_jnum(&mut out, *n);
            },
            None => {},
        }
        push_lit(&mut out, "}");
        proof {
            assert(out@ =~= self.body_json());
        }
        Ok(out)
    }

    fn parse_resp(s: &str, i: usize) -> (r: Option<(PostResponse, usize)>) {
        px_postresp(s, i)
    }
}

impl Req for DelRequest {
    type Resp = URLRecord;

    open spec fn method_name_spec() -> Seq<char> {
        "delete_record"@
    }

    open spec fn body_json(&self) -> Seq<char> {
        "{\"key\":"@ + jstr(self.key@) + ",\"token\":"@ + jstr(self.token@) + "}"@
    }

    open spec fn p_resp(t: Seq<char>) -> Option<(URLRecordV, Seq<char>)> {
        p_urlrecord(t)
    }

    fn method_name() -> (r: &'static str) {
        "delete_record"
    }

    fn to_string(&self) -> (r: Result<String, Error>) {
        let mut out = String::new();
        push_lit(&mut out, "{\"key\":");
        write_jstr(&mut out, self.key.as_str());
        push_lit(&mut out, ",\"token\":");
        write_jstr(&mut out, self.token.as_str());
        push_lit(&mut out, "}");
        proof {
            assert(out@ =~= self.body_json());
        }
        Ok(out)
    }

    fn parse_resp(s: &str, i: usize) -> (r: Option<(URLRecord, usize)>) {
        px_urlrecord(s, i)
    }
}

impl Req for ListRequest {
    type Resp = ListResponse;

    open spec fn method_name_spec() -> Seq<char> {
        "list_record"@
    }

    open spec fn body_json(&self) -> Seq<char> {
        match self.cursor {
            Option::None => "{}"@,
            Option::Some(c) => "{\"cursor\":"@ + jstr(c@) + "}"@,
        }
    }

    open spec fn p_resp(t: Seq<char>) -> Option<(ListResponseV, Seq<char>)> {
        p_listresp(t)
    }

    fn method_name() -> (r: &'static str) {
        "list_record"
    }

    fn to_string(&self) -> (r: Result<String, Error>) {
        let mut out = String::new();
        match &self.cursor {
            Some(c) => {
                push_lit(&mut out, "{\"cursor\":");
                write_jstr(&mut out, c.as_str());
                push_lit(&mut out, "}");
            },
            None => {
                push_lit(&mut out, "{}");
            },
        }
        proof {
            assert(out@ =~= self.body_json());
        }
        Ok(out)
    }

    fn parse_resp(s: &str, i: usize) -> (r: Option<(ListResponse, usize)>) {
        px_listresp(s, i)
    }
}

/// One entry of a verification request.
pub open spec fn single_json(v: VerifySingle) -> Seq<char> {
    "{\"key\":"@ + jstr(v.key@) + ",\"token\":"@ + jstr(v.token@) + ",\"value\":"@ + jstr(
        v.value@,
    ) + "}"@
}

pub open spec fn verify_items(vs: Seq<VerifySingle>) -> Seq<char>
    decreases vs.len(),
{
    if vs.len() == 0 {
        Seq::empty()
    } else if vs.len() == 1 {
        single_json(vs[0])
    } else {
        single_json(vs[0]) + seq![','] + verify_items(vs.skip(1))
    }
}

pub proof fn lemma_verify_items_push(vs: Seq<VerifySingle>, x: VerifySingle)
    ensures
        verify_items(vs.push(x)) == if vs.len() == 0 {
            single_json(x)
        } else {
            verify_items(vs) + seq![','] + single_json(x)
        },
    decreases vs.len(),
{
    let e = vs.push(x);
    if vs.len() == 0 {
        assert(e.len() == 1);
        assert(e[0] == x);
    } else {
        assert(e[0] == vs[0]);
        assert(e.skip(1) =~= vs.skip(1).push(x));
        lemma_verify_items_push(vs.skip(1), x);
        if vs.len() == 1 {
            assert(vs.skip(1).len() == 0);
        } else {
            assert(single_json(vs[0]) + seq![','] + (verify_items(vs.skip(1)) + seq![',']
                + single_json(x)) =~= (single_json(vs[0]) + seq![','] + verify_items(
                vs.skip(1),
            )) + seq![','] + single_json(x));
        }
    }
}

pub fn write_single(out: &mut String, v: &VerifySingle)
    ensures
        final(out)@ == old(out)@ + single_json(*v),
{
    push_lit(out, "{\"key\":");
    write_jstr(out, v.key.as_str());
    push_lit(out, ",\"token\":");
    write_jstr(out, v.token.as_str());
    push_lit(out, ",\"value\":");
    write_jstr(out, v.value.as_str());
    push_lit(out, "}");
    proof {
        assert(out@ =~= old(out)@ + single_json(*v));
    }
}

impl Req for VerifyRequest {
    type Resp = VerifyResponse;

    open spec fn method_name_spec() -> Seq<char> {
        "verify_record"@
    }

    open spec fn body_json(&self) -> Seq<char> {
        "{\"values\":["@ + verify_items(self.values@) + "]}"@
    }

    open spec fn p_resp(t: Seq<char>) -> Option<(VerifyResponseV, Seq<char>)> {
        p_verifyresp(t)
    }

    fn method_name() -> (r: &'static str) {
        "verify_record"
    }

    fn to_string(&self) -> (r: Result<String, Error>) {
        let mut out = String::new();
        push_lit(&mut out, "{\"values\":[");
        let mut k: usize = 0;
        while k < self.values.len()
            invariant
                k <= self.values.len(),
                out@ == "{\"values\":["@ + verify_items(self.values@.subrange(0, k as int)),
            decreases self.values.len() - k,
        {
            if k > 0 {
                push_lit(&mut out, ",");
            }
            write_single(&mut out, &self.values[k]);
            proof {
                let pre = self.values@.subrange(0, k as int);
                lemma_verify_items_push(pre, self.values@[k as int]);
                assert(pre.push(self.values@[k as int]) =~= self.values@.subrange(
                    0,
                    k as int + 1,
                ));
                reveal_strlit(",");
                assert(","@ =~= seq![',']);
                if k > 0 {
                    assert(out@ =~= "{\"values\":["@ + (verify_items(pre) + seq![',']
                        + single_json(self.values@[k as int])));
                }
            }
            k = k + 1;
        }
        push_lit(&mut out, "]}");
        proof {
            assert(self.values@.subrange(0, self.values@.len() as int) =~= self.values@);
            assert(out@ =~= self.body_json());
        }
        Ok(out)
    }

    fn parse_resp(s: &str, i: usize) -> (r: Option<(VerifyResponse, usize)>) {
        px_verifyresp(s, i)
    }
}

// ---------------------------------------------------------------------------
// The envelope: success carries a result, error carries code and reasons.
// Members are read in any order; at the closing brace the `ok` marker
// decides which shape the members must form.
// ---------------------------------------------------------------------------

pub open spec fn p_env_step<R: Req>(
    name: Seq<char>,
    t: Seq<char>,
    ok: Option<bool>,
    res: Option<<R::Resp as View>::V>,
    code: Option<u64>,
    text: Option<Seq<char>>,
    rsn: Option<Seq<Seq<char>>>,
) -> Option<
    (
        (
            Option<bool>,
            Option<<R::Resp as View>::V>,
            Option<u64>,
            Option<Seq<char>>,
            Option<Seq<Seq<char>>>,
        ),
        Seq<char>,
    ),
> {
    if name == "ok"@ {
        if ok is Some {
            Option::None
        } else {
            match p_bool(t) {
                Option::Some(bp) => Option::Some(
                    ((Option::Some(bp.0), res, code, text, rsn), bp.1),
                ),
                Option::None => Option::None,
            }
        }
    } else if name == "result"@ {
        if res is Some {
            Option::None
        } else {
            match R::p_resp(t) {
                Option::Some(vp) => Option::Some(
                    ((ok, Option::Some(vp.0), code, text, rsn), vp.1),
                ),
                Option::None => Option::None,
            }
        }
    } else if name == "error_code"@ {
        if code is Some {
            Option::None
        } else {
            match p_u64(t) {
                Option::Some(up) => Option::Some(
                    ((ok, res, Option::Some(up.0), text, rsn), up.1),
                ),
                Option::None => Option::None,
            }
        }
    } else if name == "error_text"@ {
        if text is Some {
            Option::None
        } else {
            match p_string(t) {
                Option::Some(sp) => Option::Some(
                    ((ok, res, code, Option::Some(sp.0), rsn), sp.1),
                ),
                Option::None => Option::None,
            }
        }
    } else if name == "reason"@ {
        if rsn is Some {
            Option::None
        } else {
            match p_strarr(t) {
                Option::Some(ap) => Option::Some(
                    ((ok, res, code, text, Option::Some(ap.0)), ap.1),
                ),
                Option::None => Option::None,
            }
        }
    } else {
        Option::None
    }
}

pub open spec fn p_env_members<R: Req>(
    t: Seq<char>,
    ok: Option<bool>,
    res: Option<<R::Resp as View>::V>,
    code: Option<u64>,
    text: Option<Seq<char>>,
    rsn: Option<Seq<Seq<char>>>,
) -> Option<(RespV<<R::Resp as View>::V>, Seq<char>)>
    decreases t.len(),
{
    match p_string(skip_ws(t)) {
        Option::Some(np) => {
            let t1 = skip_ws(np.1);
            match p_char(t1, ':') {
                Option::Some(t2) => match p_env_step::<R>(
                    np.0,
                    skip_ws(t2),
                    ok,
                    res,
                    code,
                    text,
                    rsn,
                ) {
                    Option::Some(st) => {
                        let t4 = skip_ws(st.1);
                        match p_char(t4, ',') {
                            Option::Some(t5) => if t5.len() < t.len() {
                                p_env_members::<R>(t5, st.0.0, st.0.1, st.0.2, st.0.3, st.0.4)
                            } else {
                                Option::None
                            },
                            Option::None => match p_char(t4, '}') {
                                Option::Some(t6) => match st.0.0 {
                                    Option::Some(true) => match (st.0.1, st.0.2, st.0.3, st.0.4) {
                                        (
                                            Option::Some(v2),
                                            Option::None,
                                            Option::None,
                                            Option::None,
                                        ) => Option::Some(
                                            (RespV::Success { ok: true, result: v2 }, t6),
                                        ),
                                        _ => Option::None,
                                    },
                                    Option::Some(false) => match (
                                        st.0.1,
                                        st.0.2,
                                        st.0.3,
                                        st.0.4,
                                    ) {
                                        (
                                            Option::None,
                                            Option::Some(c0),
                                            Option::Some(tx),
                                            Option::Some(rs),
                                        ) => match code_from_spec(c0 as int) {
                                            Option::Some(c) => Option::Some(
                                                (
                                                    RespV::Error {
                                                        ok: false,
                                                        error_code: c,
                                                        error_text: tx,
                                                        reason: rs,
                                                    },
                                                    t6,
                                                ),
                                            ),
                                            Option::None => Option::None,
                                        },
                                        _ => Option::None,
                                    },
                                    Option::None => Option::None,
                                },
                                Option::None => Option::None,
                            },
                        }
                    },
                    Option::None => Option::None,
                },
                Option::None => Option::None,
            }
        },
        Option::None => Option::None,
    }
}

pub open spec fn p_envelope<R: Req>(t: Seq<char>) -> Option<
    (RespV<<R::Resp as View>::V>, Seq<char>),
> {
    match p_char(skip_ws(t), '{') {
        Option::Some(t1) => p_env_members::<R>(
            t1,
            Option::None,
            Option::None,
            Option::None,
            Option::None,
            Option::None,
        ),
        Option::None => Option::None,
    }
}

/// A response body must hold one envelope and nothing after it but
/// whitespace.
pub open spec fn p_envelope_full<R: Req>(t: Seq<char>) -> Option<RespV<<R::Resp as View>::V>> {
    match p_envelope::<R>(t) {
        Option::Some(p) => if skip_ws(p.1).len() == 0 {
            Option::Some(p.0)
        } else {
            Option::None
        },
        Option::None => Option::None,
    }
}

#[verifier::rlimit(100)]
pub fn px_env_step<R: Req>(
    s: &str,
    name: &String,
    i: usize,
    ok: Option<bool>,
    res: Option<R::Resp>,
    code: Option<u64>,
    text: Option<String>,
    rsn: Option<Vec<String>>,
) -> (r: Option<
    ((Option<bool>, Option<R::Resp>, Option<u64>, Option<String>, Option<Vec<String>>), usize),
>)
    requires
        i <= s@.len(),
    ensures
        match p_env_step::<R>(
            name@,
            s@.skip(i as int),
            ok,
            opt_view(res),
            code,
            opt_str_view(text),
            opt_strs_view(rsn),
        ) {
            Option::Some(p) => r matches Some(q) && q.0.0 == p.0.0 && opt_view(q.0.1) == p.0.1
                && q.0.2 == p.0.2 && opt_str_view(q.0.3) == p.0.3 && opt_strs_view(q.0.4)
                == p.0.4 && i <= q.1 && q.1 <= s@.len() && s@.skip(q.1 as int) == p.1,
            Option::None => r is None,
        },
{
    if str_eq(name.as_str(), "ok") {
        if ok.is_some() {
            None
        } else {
            match px_bool(s, i) {
                Some(p) => Some(((Some(p.0), res, code, text, rsn), p.1)),
                None => None,
            }
        }
    } else if str_eq(name.as_str(), "result") {
        if res.is_some() {
            None
        } else {
            match R::parse_resp(s, i) {
                Some(p) => Some(((ok, Some(p.0), code, text, rsn), p.1)),
                None => None,
            }
        }
    } else if str_eq(name.as_str(), "error_code") {
        if code.is_some() {
            None
        } else {
            match px_u64(s, i) {
                Some(p) => Some(((ok, res, Some(p.0), text, rsn), p.1)),
                None => None,
            }
        }
    } else if str_eq(name.as_str(), "error_text") {
        if text.is_some() {
            None
        } else {
            match px_string(s, i) {
                Some(p) => Some(((ok, res, code, Some(p.0), rsn), p.1)),
                None => None,
            }
        }
    } else if str_eq(name.as_str(), "reason") {
        if rsn.is_some() {
            None
        } else {
            match px_strarr(s, i) {
                Some(p) => Some(((ok, res, code, text, Some(p.0)), p.1)),
                None => None,
            }
        }
    } else {
        None
    }
}

#[verifier::rlimit(100)]
pub fn px_env_members<R: Req>(
    s: &str,
    i: usize,
    ok: Option<bool>,
    res: Option<R::Resp>,
    code: Option<u64>,
    text: Option<String>,
    rsn: Option<Vec<String>>,
) -> (r: Option<(Response<R::Resp>, usize)>)
    requires
        i <= s@.len(),
    ensures
        match p_env_members::<R>(
            s@.skip(i as int),
            ok,
            opt_view(res),
            code,
            opt_str_view(text),
            opt_strs_view(rsn),
        ) {
            Option::Some(p) => r matches Some(q) && q.0@ == p.0 && i <= q.1 && q.1 <= s@.len()
                && s@.skip(q.1 as int) == p.1,
            Option::None => r is None,
        },
    decreases s@.len() - i,
{
    let i0 = px_ws(s, i);
    let (name, j1) = match px_string(s, i0) {
        Some(p) => p,
        None => { return None; },
    };
    let j2 = px_ws(s, j1);
    let j3 = match px_char(s, j2, ':') {
        Some(j) => j,
        None => { return None; },
    };
    let j4 = px_ws(s, j3);
    let (acc, j5) = match px_env_step::<R>(s, &name, j4, ok, res, code, text, rsn) {
        Some(x) => x,
        None => { return None; },
    };
    let (ok2, res2, code2, text2, rsn2) = acc;
    let j6 = px_ws(s, j5);
    match px_char(s, j6, ',') {
        Some(j7) => {
            if j7 > i {
                px_env_members::<R>(s, j7, ok2, res2, code2, text2, rsn2)
            } else {
                proof {
                    assert(s@.skip(j7 as int).len() < s@.skip(i as int).len());
                }
                None
            }
        },
        None => match px_char(s, j6, '}') {
            Some(j7) => match ok2 {
                Some(true) => match (res2, code2, text2, rsn2) {
                    (Some(v2), None, None, None) => Some(
                        (Response::Success { ok: true, result: v2 }, j7),
                    ),
                    _ => None,
                },
                Some(false) => match (res2, code2, text2, rsn2) {
                    (None, Some(c0), Some(tx), Some(rs)) => match ErrorCode::from_code(c0) {
                        Some(c) => Some(
                            (
                                Response::Error {
                                    ok: false,
                                    error_code: c,
                                    error_text: tx,
                                    reason: rs,
                                },
                                j7,
                            ),
                        ),
                        None => None,
                    },
                    _ => None,
                },
                None => None,
            },
            None => None,
        },
    }
}

/// Decode a response body into the envelope for `R`'s response type.
#[verifier::rlimit(100)]
pub fn parse_envelope<R: Req>(s: &str) -> (r: Result<Response<R::Resp>, Error>)
    ensures
        match p_envelope_full::<R>(s@) {
            Option::Some(v) => r matches Ok(resp) && resp@ == v,
            Option::None => r matches Err(e) && e matches Error::Parse(_),
        },
{
    proof {
        assert(s@.skip(0) =~= s@);
    }
    let j0 = px_ws(s, 0);
    let j1 = match px_char(s, j0, '{') {
        Some(j) => j,
        None => { return Err(Error::Parse(String::new())); },
    };
    match px_env_members::<R>(s, j1, None, None, None, None, None) {
        Some(p) => {
            let (resp, j2) = p;
            let j3 = px_ws(s, j2);
            if j3 == s.unicode_len() {
                proof {
                    assert(s@.skip(j3 as int).len() == 0);
                }
                Ok(resp)
            } else {
                proof {
                    assert(s@.skip(j3 as int).len() != 0);
                }
                Err(Error::Parse(String::new()))
            }
        },
        None => Err(Error::Parse(String::new())),
    }
}

// ---------------------------------------------------------------------------
// The client
// ---------------------------------------------------------------------------

/// The service endpoint this client is built against by default.
pub open spec fn default_api_url() -> Seq<char> {
    "https://pop.tg/api/v2/"@
}

/// A client bound to a base endpoint. The network call itself lives
/// outside this library; the client prepares what to send and interprets
/// what came back.
pub struct Client {
    api_url: String,
}

impl View for Client {
    type V = Seq<char>;

    closed spec fn view(&self) -> Seq<char> {
        self.api_url@
    }
}

impl Client {
    pub fn new() -> (r: Self)
        ensures
            r@ == default_api_url(),
    {
        Client { api_url: String::from_str("https://pop.tg/api/v2/") }
    }

    pub fn new_with_url(api_url: String) -> (r: Self)
        ensures
            r@ == api_url@,
    {
        Client { api_url: api_url }
    }

    /// The URL a request goes to: the base joined with the method name.
    pub fn endpoint<R: Req>(&self) -> (r: String)
        ensures
            r@ == self@ + R::method_name_spec(),
    {
        let mut u = self.api_url.clone();
        u.append(R::method_name());
        u
    }

    /// Everything the transport needs to send: target URL and JSON body.
    pub fn prepare<R: Req>(&self, req: &R) -> (r: (String, String))
        ensures
            r.0@ == self@ + R::method_name_spec(),
            r.1@ == req.body_json(),
    {
        let url = self.endpoint::<R>();
        let body = req.to_string().unwrap();
        (url, body)
    }

    /// Interpret what the transport got back: HTTP 200 and 400 carry an
    /// envelope to decode; any other status is a transport failure with
    /// the status and raw body attached.
    pub fn interpret<R: Req>(&self, status: u16, body: &str) -> (r: Result<
        Response<R::Resp>,
        Error,
    >)
        ensures
            status != 200 && status != 400 ==> (r matches Err(e) && e matches
                Error::RequestFailed(st, b) && st == status && b@ == body@),
            status == 200 || status == 400 ==> match p_envelope_full::<R>(body@) {
                Option::Some(v) => r matches Ok(resp) && resp@ == v,
                Option::None => r matches Err(e) && e matches Error::Parse(_),
            },
    {
        if status != 200 && status != 400 {
            Err(Error::RequestFailed(status, body.to_owned()))
        } else {
            parse_envelope::<R>(body)
        }
    }
}

// ---------------------------------------------------------------------------
// The request bodies round-trip: a parser for each body shape, and proofs
// that parsing a serialized request yields its fields back, with omitted
// optional members absent
// ---------------------------------------------------------------------------

/// Either the closing brace, or a `ttl` member and then the brace.
pub open spec fn p_ttl_tail(t: Seq<char>) -> Option<(Option<u64>, Seq<char>)> {
    match p_char(t, '}') {
        Option::Some(r) => Option::Some((Option::None, r)),
        Option::None => match p_lit(t, ",\"ttl\":"@) {
            Option::Some(t1) => match p_u64(t1) {
                Option::Some(np) => match p_char(np.1, '}') {
                    Option::Some(r) => Option::Some((Option::Some(np.0), r)),
                    Option::None => Option::None,
                },
                Option::None => Option::None,
            },
            Option::None => Option::None,
        },
    }
}

pub proof fn lemma_p_ttl_tail_complete(o: Option<u64>, rest: Seq<char>)
    ensures
        p_ttl_tail(ttl_json(o) + (seq!['}'] + rest)) == Some((o, rest)),
{
    let t = ttl_json(o) + (seq!['}'] + rest);
    match o {
        Option::None => {
            assert(t =~= seq!['}'] + rest);
            lemma_p_char_complete('}', rest);
        },
        Option::Some(n) => {
            reveal_strlit(",\"ttl\":");
            let lt = ",\"ttl\":"@;
            let y1 = jnum(n as int) + (seq!['}'] + rest);
            assert(t =~= lt + y1);
            assert(t[0] == lt[0]);
            assert(lt[0] == ',');
            assert(p_char(t, '}') is None);
            lemma_p_lit_complete(lt, y1);
            lemma_p_u64_complete(n, seq!['}'] + rest);
            assert((seq!['}'] + rest)[0] == '}');
            lemma_p_char_complete('}', rest);
        },
    }
}

pub open spec fn p_get_req(t: Seq<char>) -> Option<(Seq<char>, Seq<char>)> {
    match p_lit(t, "{\"key\":"@) {
        Option::Some(t1) => match p_string(t1) {
            Option::Some(kp) => match p_char(kp.1, '}') {
                Option::Some(r) => Option::Some((kp.0, r)),
                Option::None => Option::None,
            },
            Option::None => Option::None,
        },
        Option::None => Option::None,
    }
}

/// A serialized fetch request parses back to its key.
pub proof fn lemma_get_req_round_trip(g: GetRequest, rest: Seq<char>)
    ensures
        p_get_req(g.body_json() + rest) == Some((g.key@, rest)),
{
    let x1 = seq!['}'] + rest;
    let x0 = jstr(g.key@) + x1;
    reveal_strlit("}");
    assert("}"@ =~= seq!['}']);
    assert(g.body_json() + rest =~= "{\"key\":"@ + x0);
    lemma_p_lit_complete("{\"key\":"@, x0);
    lemma_p_string_complete(g.key@, x1);
    lemma_p_char_complete('}', rest);
}

pub open spec fn p_post_req(t: Seq<char>) -> Option<
    ((Seq<char>, Seq<char>, Option<u64>), Seq<char>),
> {
    match p_lit(t, "{\"key\":"@) {
        Option::Some(t1) => match p_string(t1) {
            Option::Some(kp) => match p_lit(kp.1, ",\"value\":"@) {
                Option::Some(t2) => match p_string(t2) {
                    Option::Some(vp) => match p_ttl_tail(vp.1) {
                        Option::Some(tp) => Option::Some(((kp.0, vp.0, tp.0), tp.1)),
                        Option::None => Option::None,
                    },
                    Option::None => Option::None,
                },
                Option::None => Option::None,
            },
            Option::None => Option::None,
        },
        Option::None => Option::None,
    }
}

/// A serialized creation request parses back to its fields; an absent
/// `ttl` is absent from the body, not null.
pub proof fn lemma_post_req_round_trip(g: PostRequest, rest: Seq<char>)
    ensures
        p_post_req(g.body_json() + rest) == Some(((g.key@, g.value@, g.ttl), rest)),
{
    reveal_strlit("}");
    assert("}"@ =~= seq!['}']);
    let x3 = ttl_json(g.ttl) + (seq!['}'] + rest);
    let x2 = jstr(g.value@) + x3;
    let x1 = ",\"value\":"@ + x2;
    let x0 = jstr(g.key@) + x1;
    assert(g.body_json() + rest =~= "{\"key\":"@ + x0);
    lemma_p_lit_complete("{\"key\":"@, x0);
    lemma_p_string_complete(g.key@, x1);
    lemma_p_lit_complete(",\"value\":"@, x2);
    lemma_p_string_complete(g.value@, x3);
    lemma_p_ttl_tail_complete(g.ttl, rest);
}

pub open spec fn p_put_req(t: Seq<char>) -> Option<
    ((Seq<char>, Seq<char>, Seq<char>, Option<u64>), Seq<char>),
> {
    match p_lit(t, "{\"key\":"@) {
        Option::Some(t1) => match p_string(t1) {
            Option::Some(kp) => match p_lit(kp.1, ",\"value\":"@) {
                Option::Some(t2) => match p_string(t2) {
                    Option::Some(vp) => match p_lit(vp.1, ",\"token\":"@) {
                        Option::Some(t3) => match p_string(t3) {
                            Option::Some(tp) => match p_ttl_tail(tp.1) {
                                Option::Some(lp) => Option::Some(
                                    ((kp.0, vp.0, tp.0, lp.0), lp.1),
                                ),
                                Option::None => Option::None,
                            },
                            Option::None => Option::None,
                        },
                        Option::None => Option::None,
                    },
                    Option::None => Option::None,
                },
                Option::None => Option::None,
            },
            Option::None => Option::None,
        },
        Option::None => Option::None,
    }
}

/// A serialized update request parses back to its fields.
pub proof fn lemma_put_req_round_trip(g: PutRequest, rest: Seq<char>)
    ensures
        p_put_req(g.body_json() + rest) == Some(((g.key@, g.value@, g.token@, g.ttl), rest)),
{
    reveal_strlit("}");
    assert("}"@ =~= seq!['}']);
    let x5 = ttl_json(g.ttl) + (seq!['}'] + rest);
    let x4 = jstr(g.token@) + x5;
    let x3 = ",\"token\":"@ + x4;
    let x2 = jstr(g.value@) + x3;
    let x1 = ",\"value\":"@ + x2;
    let x0 = jstr(g.key@) + x1;
    assert(g.body_json() + rest =~= "{\"key\":"@ + x0);
    lemma_p_lit_complete("{\"key\":"@, x0);
    lemma_p_string_complete(g.key@, x1);
    lemma_p_lit_complete(",\"value\":"@, x2);
    lemma_p_string_complete(g.value@, x3);
    lemma_p_lit_complete(",\"token\":"@, x4);
    lemma_p_string_complete(g.token@, x5);
    lemma_p_ttl_tail_complete(g.ttl, rest);
}

pub open spec fn p_del_req(t: Seq<char>) -> Option<((Seq<char>, Seq<char>), Seq<char>)> {
    match p_lit(t, "{\"key\":"@) {
        Option::Some(t1) => match p_string(t1) {
            Option::Some(kp) => match p_lit(kp.1, ",\"token\":"@) {
                Option::Some(t2) => match p_string(t2) {
                    Option::Some(tp) => match p_char(tp.1, '}') {
                        Option::Some(r) => Option::Some(((kp.0, tp.0), r)),
                        Option::None => Option::None,
                    },
                    Option::None => Option::None,
                },
                Option::None => Option::None,
            },
            Option::None => Option::None,
        },
        Option::None => Option::None,
    }
}

/// A serialized deletion request parses back to its key and token.
pub proof fn lemma_del_req_round_trip(g: DelRequest, rest: Seq<char>)
    ensures
        p_del_req(g.body_json() + rest) == Some(((g.key@, g.token@), rest)),
{
    reveal_strlit("}");
    assert("}"@ =~= seq!['}']);
    let x3 = seq!['}'] + rest;
    let x2 = jstr(g.token@) + x3;
    let x1 = ",\"token\":"@ + x2;
    let x0 = jstr(g.key@) + x1;
    assert(g.body_json() + rest =~= "{\"key\":"@ + x0);
    lemma_p_lit_complete("{\"key\":"@, x0);
    lemma_p_string_complete(g.key@, x1);
    lemma_p_lit_complete(",\"token\":"@, x2);
    lemma_p_string_complete(g.token@, x3);
    lemma_p_char_complete('}', rest);
}

pub open spec fn p_list_req(t: Seq<char>) -> Option<(Option<Seq<char>>, Seq<char>)> {
    match p_lit(t, "{}"@) {
        Option::Some(r) => Option::Some((Option::None, r)),
        Option::None => match p_lit(t, "{\"cursor\":"@) {
            Option::Some(t1) => match p_string(t1) {
                Option::Some(cp) => match p_char(cp.1, '}') {
                    Option::Some(r) => Option::Some((Option::Some(cp.0), r)),
                    Option::None => Option::None,
                },
                Option::None => Option::None,
            },
            Option::None => Option::None,
        },
    }
}

/// A serialized listing request parses back to its cursor; an absent
/// cursor serializes to an empty object.
pub proof fn lemma_list_req_round_trip(g: ListRequest, rest: Seq<char>)
    ensures
        p_list_req(g.body_json() + rest) == Some(
            (
                match g.cursor {
                    Option::None => Option::<Seq<char>>::None,
                    Option::Some(c) => Option::Some(c@),
                },
                rest,
            ),
        ),
{
    let t = g.body_json() + rest;
    reveal_strlit("{}");
    reveal_strlit("{\"cursor\":");
    reveal_strlit("}");
    assert("}"@ =~= seq!['}']);
    match g.cursor {
        Option::None => {
            lemma_p_lit_complete("{}"@, rest);
        },
        Option::Some(c) => {
            let x1 = seq!['}'] + rest;
            let x0 = jstr(c@) + x1;
            assert(t =~= "{\"cursor\":"@ + x0);
            if t.len() >= 2 && t.subrange(0, 2) == "{}"@ {
                assert(t.subrange(0, 2)[1] == '}');
                assert(t[1] == "{\"cursor\":"@[1]);
                assert(false);
            }
            assert(p_lit(t, "{}"@) is None);
            lemma_p_lit_complete("{\"cursor\":"@, x0);
            lemma_p_string_complete(c@, x1);
            lemma_p_char_complete('}', rest);
        },
    }
}

pub open spec fn p_single(t: Seq<char>) -> Option<((Seq<char>, Seq<char>, Seq<char>), Seq<char>)> {
    match p_lit(t, "{\"key\":"@) {
        Option::Some(t1) => match p_string(t1) {
            Option::Some(kp) => match p_lit(kp.1, ",\"token\":"@) {
                Option::Some(t2) => match p_string(t2) {
                    Option::Some(tp) => match p_lit(tp.1, ",\"value\":"@) {
                        Option::Some(t3) => match p_string(t3) {
                            Option::Some(vp) => match p_char(vp.1, '}') {
                                Option::Some(r) => Option::Some(((kp.0, tp.0, vp.0), r)),
                                Option::None => Option::None,
                            },
                            Option::None => Option::None,
                        },
                        Option::None => Option::None,
                    },
                    Option::None => Option::None,
                },
                Option::None => Option::None,
            },
            Option::None => Option::None,
        },
        Option::None => Option::None,
    }
}

pub proof fn lemma_p_single_complete(v: VerifySingle, rest: Seq<char>)
    ensures
        p_single(single_json(v) + rest) == Some(((v.key@, v.token@, v.value@), rest)),
{
    reveal_strlit("}");
    assert("}"@ =~= seq!['}']);
    let x5 = seq!['}'] + rest;
    let x4 = jstr(v.value@) + x5;
    let x3 = ",\"value\":"@ + x4;
    let x2 = jstr(v.token@) + x3;
    let x1 = ",\"token\":"@ + x2;
    let x0 = jstr(v.key@) + x1;
    assert(single_json(v) + rest =~= "{\"key\":"@ + x0);
    lemma_p_lit_complete("{\"key\":"@, x0);
    lemma_p_string_complete(v.key@, x1);
    lemma_p_lit_complete(",\"token\":"@, x2);
    lemma_p_string_complete(v.token@, x3);
    lemma_p_lit_complete(",\"value\":"@, x4);
    lemma_p_string_complete(v.value@, x5);
    lemma_p_char_complete('}', rest);
}

pub open spec fn single_views(vs: Seq<VerifySingle>) -> Seq<(Seq<char>, Seq<char>, Seq<char>)> {
    vs.map_values(|v: VerifySingle| (v.key@, v.token@, v.value@))
}

/// One or more entries, then the closing bracket.
pub open spec fn p_verify_items(t: Seq<char>) -> Option<
    (Seq<(Seq<char>, Seq<char>, Seq<char>)>, Seq<char>),
>
    decreases t.len(),
{
    match p_single(t) {
        Option::Some(sp) => match p_char(sp.1, ',') {
            Option::Some(t2) => if t2.len() < t.len() {
                match p_verify_items(t2) {
                    Option::Some(mp) => Option::Some((seq![sp.0] + mp.0, mp.1)),
                    Option::None => Option::None,
                }
            } else {
                Option::None
            },
            Option::None => match p_char(sp.1, ']') {
                Option::Some(t2) => Option::Some((seq![sp.0], t2)),
                Option::None => Option::None,
            },
        },
        Option::None => Option::None,
    }
}

#[verifier::rlimit(100)]
pub proof fn lemma_p_verify_items_complete(vs: Seq<VerifySingle>, rest: Seq<char>)
    requires
        vs.len() >= 1,
    ensures
        p_verify_items(verify_items(vs) + (seq![']'] + rest)) == Some((single_views(vs), rest)),
    decreases vs.len(),
{
    let t = verify_items(vs) + (seq![']'] + rest);
    if vs.len() == 1 {
        lemma_p_single_complete(vs[0], seq![']'] + rest);
        assert((seq![']'] + rest)[0] == ']');
        assert(p_char(seq![']'] + rest, ',') is None);
        lemma_p_char_complete(']', rest);
        assert(seq![(vs[0].key@, vs[0].token@, vs[0].value@)] =~= single_views(vs));
    } else {
        let tail = vs.skip(1);
        let t2 = verify_items(tail) + (seq![']'] + rest);
        assert(t =~= single_json(vs[0]) + (seq![','] + t2));
        lemma_p_single_complete(vs[0], seq![','] + t2);
        lemma_p_char_complete(',', t2);
        assert(t.len() == single_json(vs[0]).len() + 1 + t2.len());
        lemma_p_verify_items_complete(tail, rest);
        assert(seq![(vs[0].key@, vs[0].token@, vs[0].value@)] + single_views(tail)
            =~= single_views(vs));
    }
}

pub open spec fn p_verify_req(t: Seq<char>) -> Option<
    (Seq<(Seq<char>, Seq<char>, Seq<char>)>, Seq<char>),
> {
    match p_lit(t, "{\"values\":["@) {
        Option::Some(t1) => match p_char(t1, ']') {
            Option::Some(t2) => match p_char(t2, '}') {
                Option::Some(r) => Option::Some((Seq::empty(), r)),
                Option::None => Option::None,
            },
            Option::None => match p_verify_items(t1) {
                Option::Some(mp) => match p_char(mp.1, '}') {
                    Option::Some(r) => Option::Some((mp.0, r)),
                    Option::None => Option::None,
                },
                Option::None => Option::None,
            },
        },
        Option::None => Option::None,
    }
}

/// A serialized verification request parses back to its entries,
/// field for field and in order.
pub proof fn lemma_verify_req_round_trip(g: VerifyRequest, rest: Seq<char>)
    ensures
        p_verify_req(g.body_json() + rest) == Some((single_views(g.values@), rest)),
{
    reveal_strlit("]}");
    assert("]}"@ =~= seq![']', '}']);
    let t1 = verify_items(g.values@) + (seq![']'] + (seq!['}'] + rest));
    assert(g.body_json() + rest =~= "{\"values\":["@ + t1);
    lemma_p_lit_complete("{\"values\":["@, t1);
    if g.values@.len() == 0 {
        assert(t1 =~= seq![']'] + (seq!['}'] + rest));
        lemma_p_char_complete(']', seq!['}'] + rest);
        assert((seq!['}'] + rest)[0] == '}');
        lemma_p_char_complete('}', rest);
        assert(single_views(g.values@) =~= Seq::<(Seq<char>, Seq<char>, Seq<char>)>::empty());
    } else {
        reveal_strlit("{\"key\":");
        assert(t1[0] == single_json(g.values@[0])[0]);
        assert(single_json(g.values@[0])[0] == "{\"key\":"@[0]);
        assert(t1[0] == '{');
        assert(p_char(t1, ']') is None);
        lemma_p_verify_items_complete(g.values@, seq!['}'] + rest);
        assert((seq!['}'] + rest)[0] == '}');
        lemma_p_char_complete('}', rest);
    }
}

/// The public URL a record is reachable at.
pub fn short_url(key: &str) -> (r: String)
    ensures
        r@ == "https://pop.tg/"@ + key@,
{
    let mut out = String::new();
    push_lit(&mut out, "https://pop.tg/");
    push_lit(&mut out, key);
    out
}

// ---------------------------------------------------------------------------
// The envelope round trip: a success envelope decodes to its payload, a
// known error code is preserved exactly, an unrecognized code fails
// ---------------------------------------------------------------------------

/// A success envelope as the service writes it, around a payload text.
pub open spec fn ok_envelope_json(vj: Seq<char>) -> Seq<char> {
    seq!['{'] + jstr("ok"@) + seq![':'] + jbool(true) + seq![','] + jstr("result"@) + seq![':']
        + vj + seq!['}']
}

/// An error envelope as the service writes it.
pub open spec fn err_envelope_json(n: u64, text: Seq<char>, reasons: Seq<Seq<char>>) -> Seq<
    char,
> {
    seq!['{'] + jstr("ok"@) + seq![':'] + jbool(false) + seq![','] + jstr("error_code"@)
        + seq![':'] + jnum(n as int) + seq![','] + jstr("error_text"@) + seq![':'] + jstr(text)
        + seq![','] + jstr("reason"@) + seq![':'] + strarr_json(reasons) + seq!['}']
}

pub open spec fn ok_m2(vj: Seq<char>) -> Seq<char> {
    jstr("result"@) + (seq![':'] + (vj + seq!['}']))
}

#[verifier::rlimit(100)]
proof fn lemma_ok_member_result<R: Req>(vj: Seq<char>, v: <R::Resp as View>::V)
    requires
        vj.len() > 0,
        !is_ws(vj[0]),
        R::p_resp(vj + seq!['}']) == Some((v, seq!['}'])),
    ensures
        p_env_members::<R>(
            ok_m2(vj),
            Option::Some(true),
            Option::None,
            Option::None,
            Option::None,
            Option::None,
        ) == Option::Some(
            (RespV::<<R::Resp as View>::V>::Success { ok: true, result: v }, Seq::<char>::empty()),
        ),
{
    reveal_strlit("ok");
    reveal_strlit("result");
    let m2 = ok_m2(vj);
    assert("result"@ != "ok"@);
    assert(m2[0] == '"');
    assert(!is_ws('"'));
    assert(skip_ws(m2) == m2);
    lemma_p_string_complete("result"@, seq![':'] + (vj + seq!['}']));
    assert((seq![':'] + (vj + seq!['}']))[0] == ':');
    assert(!is_ws(':'));
    assert(skip_ws(seq![':'] + (vj + seq!['}'])) == seq![':'] + (vj + seq!['}']));
    lemma_p_char_complete(':', vj + seq!['}']);
    assert((vj + seq!['}'])[0] == vj[0]);
    assert(skip_ws(vj + seq!['}']) == vj + seq!['}']);
    assert((seq!['}'])[0] == '}');
    assert(!is_ws('}'));
    assert(skip_ws(seq!['}']) == seq!['}']);
    assert(p_char(seq!['}'], ',') is None);
    lemma_p_char_complete('}', Seq::empty());
    assert(seq!['}'] =~= seq!['}'] + Seq::<char>::empty());
    assert(p_char(seq!['}'], '}') == Some(Seq::<char>::empty()));
}

/// A success envelope around a payload text that parses to `v` decodes
/// to the success shape carrying `v`.
#[verifier::rlimit(100)]
pub proof fn lemma_success_envelope_decode<R: Req>(vj: Seq<char>, v: <R::Resp as View>::V)
    requires
        vj.len() > 0,
        !is_ws(vj[0]),
        R::p_resp(vj + seq!['}']) == Some((v, seq!['}'])),
    ensures
        p_envelope_full::<R>(ok_envelope_json(vj)) == Some(
            RespV::<<R::Resp as View>::V>::Success { ok: true, result: v },
        ),
{
    reveal_strlit("ok");
    reveal_strlit("true");
    let m2 = ok_m2(vj);
    let r1 = seq![':'] + (jbool(true) + (seq![','] + m2));
    let m1 = jstr("ok"@) + r1;
    let t = ok_envelope_json(vj);
    assert(t =~= seq!['{'] + m1);
    assert(t[0] == '{');
    assert(!is_ws('{'));
    assert(skip_ws(t) == t);
    lemma_p_char_complete('{', m1);
    assert(m1[0] == '"');
    assert(!is_ws('"'));
    assert(skip_ws(m1) == m1);
    lemma_p_string_complete("ok"@, r1);
    assert(r1[0] == ':');
    assert(!is_ws(':'));
    assert(skip_ws(r1) == r1);
    lemma_p_char_complete(':', jbool(true) + (seq![','] + m2));
    assert((jbool(true) + (seq![','] + m2))[0] == 't');
    assert(!is_ws('t'));
    assert(skip_ws(jbool(true) + (seq![','] + m2)) == jbool(true) + (seq![','] + m2));
    lemma_p_bool_complete(true, seq![','] + m2);
    assert((seq![','] + m2)[0] == ',');
    assert(!is_ws(','));
    assert(skip_ws(seq![','] + m2) == seq![','] + m2);
    lemma_p_char_complete(',', m2);
    assert(m2.len() < m1.len());
    lemma_ok_member_result::<R>(vj, v);
    assert(skip_ws(Seq::<char>::empty()).len() == 0);
}

pub open spec fn err_m4(reasons: Seq<Seq<char>>) -> Seq<char> {
    jstr("reason"@) + (seq![':'] + (strarr_json(reasons) + seq!['}']))
}

pub open spec fn err_m3(text: Seq<char>, reasons: Seq<Seq<char>>) -> Seq<char> {
    jstr("error_text"@) + (seq![':'] + (jstr(text) + (seq![','] + err_m4(reasons))))
}

pub open spec fn err_m2(n: u64, text: Seq<char>, reasons: Seq<Seq<char>>) -> Seq<char> {
    jstr("error_code"@) + (seq![':'] + (jnum(n as int) + (seq![','] + err_m3(text, reasons))))
}

/// What the error members from a given accumulator state must decode to.
pub open spec fn err_outcome<R: Req>(n: u64, text: Seq<char>, reasons: Seq<Seq<char>>) -> Option<
    (RespV<<R::Resp as View>::V>, Seq<char>),
> {
    match code_from_spec(n as int) {
        Option::Some(c) => Option::Some(
            (
                RespV::<<R::Resp as View>::V>::Error {
                    ok: false,
                    error_code: c,
                    error_text: text,
                    reason: reasons,
                },
                Seq::<char>::empty(),
            ),
        ),
        Option::None => Option::None,
    }
}

#[verifier::rlimit(100)]
proof fn lemma_err_member_reason<R: Req>(n: u64, text: Seq<char>, reasons: Seq<Seq<char>>)
    ensures
        p_env_members::<R>(
            err_m4(reasons),
            Option::Some(false),
            Option::None,
            Option::Some(n),
            Option::Some(text),
            Option::None,
        ) == err_outcome::<R>(n, text, reasons),
{
    reveal_strlit("ok");
    reveal_strlit("result");
    reveal_strlit("error_code");
    reveal_strlit("error_text");
    reveal_strlit("reason");
    assert("reason"@ != "ok"@);
    assert("reason"@ != "result"@) by {
        if "reason"@ == "result"@ {
            assert("reason"@[2] == "result"@[2]);
            assert(false);
        }
    };
    assert("reason"@ != "error_code"@);
    assert("reason"@ != "error_text"@);
    let m4 = err_m4(reasons);
    assert(m4[0] == '"');
    assert(!is_ws('"'));
    assert(skip_ws(m4) == m4);
    lemma_p_string_complete("reason"@, seq![':'] + (strarr_json(reasons) + seq!['}']));
    assert((seq![':'] + (strarr_json(reasons) + seq!['}']))[0] == ':');
    assert(!is_ws(':'));
    assert(skip_ws(seq![':'] + (strarr_json(reasons) + seq!['}'])) == seq![':'] + (strarr_json(
        reasons,
    ) + seq!['}']));
    lemma_p_char_complete(':', strarr_json(reasons) + seq!['}']);
    assert((strarr_json(reasons) + seq!['}'])[0] == '[');
    assert(!is_ws('['));
    assert(skip_ws(strarr_json(reasons) + seq!['}']) == strarr_json(reasons) + seq!['}']);
    lemma_p_strarr_complete(reasons, seq!['}']);
    assert((seq!['}'])[0] == '}');
    assert(!is_ws('}'));
    assert(skip_ws(seq!['}']) == seq!['}']);
    assert(p_char(seq!['}'], ',') is None);
    lemma_p_char_complete('}', Seq::empty());
    assert(seq!['}'] =~= seq!['}'] + Seq::<char>::empty());
    assert(p_char(seq!['}'], '}') == Some(Seq::<char>::empty()));
}

#[verifier::rlimit(100)]
proof fn lemma_err_member_text<R: Req>(n: u64, text: Seq<char>, reasons: Seq<Seq<char>>)
    ensures
        p_env_members::<R>(
            err_m3(text, reasons),
            Option::Some(false),
            Option::None,
            Option::Some(n),
            Option::None,
            Option::None,
        ) == err_outcome::<R>(n, text, reasons),
{
    reveal_strlit("ok");
    reveal_strlit("result");
    reveal_strlit("error_code");
    reveal_strlit("error_text");
    assert("error_text"@ != "ok"@);
    assert("error_text"@ != "result"@);
    assert("error_text"@ != "error_code"@) by {
        if "error_text"@ == "error_code"@ {
            assert("error_text"@[6] == "error_code"@[6]);
            assert(false);
        }
    };
    let m4 = err_m4(reasons);
    let m3 = err_m3(text, reasons);
    assert(m3[0] == '"');
    assert(!is_ws('"'));
    assert(skip_ws(m3) == m3);
    lemma_p_string_complete("error_text"@, seq![':'] + (jstr(text) + (seq![','] + m4)));
    assert((seq![':'] + (jstr(text) + (seq![','] + m4)))[0] == ':');
    assert(!is_ws(':'));
    assert(skip_ws(seq![':'] + (jstr(text) + (seq![','] + m4))) == seq![':'] + (jstr(text)
        + (seq![','] + m4)));
    lemma_p_char_complete(':', jstr(text) + (seq![','] + m4));
    assert((jstr(text) + (seq![','] + m4))[0] == '"');
    assert(skip_ws(jstr(text) + (seq![','] + m4)) == jstr(text) + (seq![','] + m4));
    lemma_p_string_complete(text, seq![','] + m4);
    assert((seq![','] + m4)[0] == ',');
    assert(!is_ws(','));
    assert(skip_ws(seq![','] + m4) == seq![','] + m4);
    lemma_p_char_complete(',', m4);
    assert(m4.len() < m3.len());
    lemma_err_member_reason::<R>(n, text, reasons);
}

#[verifier::rlimit(100)]
proof fn lemma_err_member_code<R: Req>(n: u64, text: Seq<char>, reasons: Seq<Seq<char>>)
    ensures
        p_env_members::<R>(
            err_m2(n, text, reasons),
            Option::Some(false),
            Option::None,
            Option::None,
            Option::None,
            Option::None,
        ) == err_outcome::<R>(n, text, reasons),
{
    reveal_strlit("ok");
    reveal_strlit("result");
    reveal_strlit("error_code");
    assert("error_code"@ != "ok"@);
    assert("error_code"@ != "result"@);
    let m3 = err_m3(text, reasons);
    let m2 = err_m2(n, text, reasons);
    assert(m2[0] == '"');
    assert(!is_ws('"'));
    assert(skip_ws(m2) == m2);
    lemma_p_string_complete("error_code"@, seq![':'] + (jnum(n as int) + (seq![','] + m3)));
    assert((seq![':'] + (jnum(n as int) + (seq![','] + m3)))[0] == ':');
    assert(!is_ws(':'));
    assert(skip_ws(seq![':'] + (jnum(n as int) + (seq![','] + m3))) == seq![':'] + (jnum(
        n as int,
    ) + (seq![','] + m3)));
    lemma_p_char_complete(':', jnum(n as int) + (seq![','] + m3));
    lemma_jnum_digits(n as int);
    assert((jnum(n as int) + (seq![','] + m3))[0] == jnum(n as int)[0]);
    assert(is_digit(jnum(n as int)[0]));
    assert(!is_ws(jnum(n as int)[0]));
    assert(skip_ws(jnum(n as int) + (seq![','] + m3)) == jnum(n as int) + (seq![','] + m3));
    assert((seq![','] + m3)[0] == ',');
    lemma_p_u64_complete(n, seq![','] + m3);
    assert(!is_ws(','));
    assert(skip_ws(seq![','] + m3) == seq![','] + m3);
    lemma_p_char_complete(',', m3);
    assert(m3.len() < m2.len());
    lemma_err_member_text::<R>(n, text, reasons);
}

/// Decoding an error envelope preserves a known code exactly; an
/// unrecognized code fails to parse.
#[verifier::rlimit(100)]
pub proof fn lemma_error_envelope_decode<R: Req>(n: u64, text: Seq<char>, reasons: Seq<Seq<char>>)
    ensures
        p_envelope_full::<R>(err_envelope_json(n, text, reasons)) == (match code_from_spec(
            n as int,
        ) {
            Option::Some(c) => Option::Some(
                RespV::<<R::Resp as View>::V>::Error {
                    ok: false,
                    error_code: c,
                    error_text: text,
                    reason: reasons,
                },
            ),
            Option::None => Option::<RespV<<R::Resp as View>::V>>::None,
        }),
{
    reveal_strlit("ok");
    reveal_strlit("false");
    let m2 = err_m2(n, text, reasons);
    let r1 = seq![':'] + (jbool(false) + (seq![','] + m2));
    let m1 = jstr("ok"@) + r1;
    let t = err_envelope_json(n, text, reasons);
    assert(t =~= seq!['{'] + m1);
    assert(t[0] == '{');
    assert(!is_ws('{'));
    assert(skip_ws(t) == t);
    lemma_p_char_complete('{', m1);
    assert(m1[0] == '"');
    assert(!is_ws('"'));
    assert(skip_ws(m1) == m1);
    lemma_p_string_complete("ok"@, r1);
    assert(r1[0] == ':');
    assert(!is_ws(':'));
    assert(skip_ws(r1) == r1);
    lemma_p_char_complete(':', jbool(false) + (seq![','] + m2));
    assert((jbool(false) + (seq![','] + m2))[0] == 'f');
    assert(!is_ws('f'));
    assert(skip_ws(jbool(false) + (seq![','] + m2)) == jbool(false) + (seq![','] + m2));
    lemma_p_bool_complete(false, seq![','] + m2);
    assert((seq![','] + m2)[0] == ',');
    assert(!is_ws(','));
    assert(skip_ws(seq![','] + m2) == seq![','] + m2);
    lemma_p_char_complete(',', m2);
    assert(m2.len() < m1.len());
    lemma_err_member_code::<R>(n, text, reasons);
    assert(skip_ws(Seq::<char>::empty()).len() == 0);
}

} // verus!
