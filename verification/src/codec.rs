//! Encoding and decoding of stored records and the history file, with
//! proofs that loading what was saved gives the records back.
use vstd::prelude::*;

use crate::error::Error;
use crate::json::{
    is_digit, is_ws, jnum, jstr, lemma_jnum_digits, lemma_p_char_complete,
    lemma_p_string_complete, lemma_p_u64_complete, opt_str_view, p_char, p_string, p_u64,
    push_char, push_lit, px_char, px_string, px_u64, px_ws, skip_ws, str_eq, write_jnum,
    write_jstr,
};
use crate::model::{UrlStored, UrlStoredV};
use vstd::string::StrSliceExecFns;

verus! {

// ---------------------------------------------------------------------------
// Rendering
// ---------------------------------------------------------------------------

/// One object member: the quoted name, a colon, and the value.
pub open spec fn member_str(name: Seq<char>, v: Seq<char>) -> Seq<char> {
    jstr(name) + seq![':'] + jstr(v)
}

pub open spec fn expire_json(e: Option<u64>) -> Seq<char> {
    match e {
        Option::None => Seq::empty(),
        Option::Some(n) => seq![','] + jstr("expire"@) + seq![':'] + jnum(n as int),
    }
}

/// One stored record as a JSON object.
pub open spec fn stored_json(r: UrlStoredV) -> Seq<char> {
    seq!['{'] + member_str("key"@, r.key) + seq![','] + member_str("value"@, r.value) + seq![',']
        + member_str("token"@, r.token) + expire_json(r.expire) + seq!['}']
}

/// The records, comma-separated.
pub open spec fn stored_items(rs: Seq<UrlStoredV>) -> Seq<char>
    decreases rs.len(),
{
    if rs.len() == 0 {
        Seq::empty()
    } else if rs.len() == 1 {
        stored_json(rs[0])
    } else {
        stored_json(rs[0]) + seq![','] + stored_items(rs.skip(1))
    }
}

/// The whole history file: a JSON array of records.
pub open spec fn history_json(rs: Seq<UrlStoredV>) -> Seq<char> {
    seq!['['] + stored_items(rs) + seq![']']
}

pub open spec fn stored_views(s: Seq<UrlStored>) -> Seq<UrlStoredV> {
    s.map_values(|r: UrlStored| r@)
}

pub fn write_stored(out: &mut String, r: &UrlStored)
    ensures
        final(out)@ == old(out)@ + stored_json(r@),
{
    push_char(out, '{');
    write_jstr(out, "key");
    push_char(out, ':');
    write_jstr(out, r.key.as_str());
    push_char(out, ',');
    write_jstr(out, "value");
    push_char(out, ':');
    write_jstr(out, r.value.as_str());
    push_char(out, ',');
    write_jstr(out, "token");
    push_char(out, ':');
    write_jstr(out, r.token.as_str());
    match &r.expire {
        Option::Some(n) => {
            push_char(out, ',');
            write_jstr(out, "expire");
            push_char(out, ':');
            write_jnum(out, *n);
        },
        Option::None => {},
    }
    push_char(out, '}');
    proof {
        assert(out@ =~= old(out)@ + stored_json(r@));
    }
}

pub proof fn lemma_stored_items_push(rs: Seq<UrlStoredV>, x: UrlStoredV)
    ensures
        stored_items(rs.push(x)) == if rs.len() == 0 {
            stored_json(x)
        } else {
            stored_items(rs) + seq![','] + stored_json(x)
        },
    decreases rs.len(),
{
    let e = rs.push(x);
    if rs.len() == 0 {
        assert(e.len() == 1);
        assert(e[0] == x);
    } else {
        assert(e[0] == rs[0]);
        assert(e.skip(1) =~= rs.skip(1).push(x));
        lemma_stored_items_push(rs.skip(1), x);
        if rs.len() == 1 {
            assert(rs.skip(1).len() == 0);
        } else {
            assert(stored_json(rs[0]) + seq![','] + (stored_items(rs.skip(1)) + seq![',']
                + stored_json(x)) =~= (stored_json(rs[0]) + seq![','] + stored_items(rs.skip(1)))
                + seq![','] + stored_json(x));
        }
    }
}

/// Serialize the full ordered sequence of records.
pub fn render_history(v: &Vec<UrlStored>) -> (r: String)
    ensures
        r@ == history_json(stored_views(v@)),
{
    let ghost vs: Seq<UrlStoredV> = stored_views(v@);
    let mut out = String::new();
    push_char(&mut out, '[');
    let mut k: usize = 0;
    while k < v.len()
        invariant
            k <= v.len(),
            vs == stored_views(v@),
            vs.len() == v.len(),
            forall|q: int| 0 <= q < v.len() ==> vs[q] == v@[q]@,
            out@ == seq!['['] + stored_items(vs.subrange(0, k as int)),
        decreases v.len() - k,
    {
        if k > 0 {
            push_char(&mut out, ',');
        }
        write_stored(&mut out, &v[k]);
        proof {
            let pre = vs.subrange(0, k as int);
            lemma_stored_items_push(pre, vs[k as int]);
            assert(pre.push(vs[k as int]) =~= vs.subrange(0, k as int + 1));
            if k > 0 {
                assert(out@ =~= seq!['['] + (stored_items(pre) + seq![','] + stored_json(
                    vs[k as int],
                )));
            }
        }
        k = k + 1;
    }
    push_char(&mut out, ']');
    proof {
        assert(vs.subrange(0, vs.len() as int) =~= vs);
        assert(out@ =~= history_json(vs));
    }
    out
}

// ---------------------------------------------------------------------------
// Parsing
// ---------------------------------------------------------------------------

/// One member's value, keyed by its name; a name may appear at most
/// once and must be one the record shape has.
pub open spec fn p_stored_step(
    name: Seq<char>,
    t: Seq<char>,
    k: Option<Seq<char>>,
    v: Option<Seq<char>>,
    tok: Option<Seq<char>>,
    e: Option<u64>,
) -> Option<((Option<Seq<char>>, Option<Seq<char>>, Option<Seq<char>>, Option<u64>), Seq<char>)> {
    if name == "key"@ {
        if k is Some {
            Option::None
        } else {
            match p_string(t) {
                Option::Some(sp) => Option::Some(((Option::Some(sp.0), v, tok, e), sp.1)),
                Option::None => Option::None,
            }
        }
    } else if name == "value"@ {
        if v is Some {
            Option::None
        } else {
            match p_string(t) {
                Option::Some(sp) => Option::Some(((k, Option::Some(sp.0), tok, e), sp.1)),
                Option::None => Option::None,
            }
        }
    } else if name == "token"@ {
        if tok is Some {
            Option::None
        } else {
            match p_string(t) {
                Option::Some(sp) => Option::Some(((k, v, Option::Some(sp.0), e), sp.1)),
                Option::None => Option::None,
            }
        }
    } else if name == "expire"@ {
        if e is Some {
            Option::None
        } else {
            match p_u64(t) {
                Option::Some(up) => Option::Some(((k, v, tok, Option::Some(up.0)), up.1)),
                Option::None => Option::None,
            }
        }
    } else {
        Option::None
    }
}

/// Gather the members of a record object, in any order, each at most
/// once; at the closing brace all required fields must be present.
pub open spec fn p_stored_members(
    t: Seq<char>,
    k: Option<Seq<char>>,
    v: Option<Seq<char>>,
    tok: Option<Seq<char>>,
    e: Option<u64>,
) -> Option<(UrlStoredV, Seq<char>)>
    decreases t.len(),
{
    match p_string(skip_ws(t)) {
        Option::Some(np) => {
            let t1 = skip_ws(np.1);
            match p_char(t1, ':') {
                Option::Some(t2) => match p_stored_step(np.0, skip_ws(t2), k, v, tok, e) {
                    Option::Some(st) => {
                        let t4 = skip_ws(st.1);
                        match p_char(t4, ',') {
                            Option::Some(t5) => if t5.len() < t.len() {
                                p_stored_members(t5, st.0.0, st.0.1, st.0.2, st.0.3)
                            } else {
                                Option::None
                            },
                            Option::None => match p_char(t4, '}') {
                                Option::Some(t6) => match (st.0.0, st.0.1, st.0.2) {
                                    (
                                        Option::Some(kk),
                                        Option::Some(vv),
                                        Option::Some(tt),
                                    ) => Option::Some(
                                        (
                                            UrlStoredV {
                                                key: kk,
                                                value: vv,
                                                token: tt,
                                                expire: st.0.3,
                                            },
                                            t6,
                                        ),
                                    ),
                                    _ => Option::None,
                                },
                                Option::None => Option::None,
                            },
                        }
                    },
                    Option::None => Option::None,
                },
                Option::None => Option::None,
            }
        },
        Option::None => Option::None,
    }
}

pub open spec fn p_stored(t: Seq<char>) -> Option<(UrlStoredV, Seq<char>)> {
    match p_char(t, '{') {
        Option::Some(t1) => p_stored_members(
            t1,
            Option::None,
            Option::None,
            Option::None,
            Option::None,
        ),
        Option::None => Option::None,
    }
}

/// One or more records, then the closing bracket.
pub open spec fn p_stored_items(t: Seq<char>) -> Option<(Seq<UrlStoredV>, Seq<char>)>
    decreases t.len(),
{
    match p_stored(t) {
        Option::Some(rp) => {
            let t2 = skip_ws(rp.1);
            match p_char(t2, ',') {
                Option::Some(t3) => {
                    let t4 = skip_ws(t3);
                    if t4.len() < t.len() {
                        match p_stored_items(t4) {
                            Option::Some(mp) => Option::Some((seq![rp.0] + mp.0, mp.1)),
                            Option::None => Option::None,
                        }
                    } else {
                        Option::None
                    }
                },
                Option::None => match p_char(t2, ']') {
                    Option::Some(t3) => Option::Some((seq![rp.0], t3)),
                    Option::None => Option::None,
                },
            }
        },
        Option::None => Option::None,
    }
}

pub open spec fn p_history(t: Seq<char>) -> Option<(Seq<UrlStoredV>, Seq<char>)> {
    match p_char(skip_ws(t), '[') {
        Option::Some(t1) => {
            let t2 = skip_ws(t1);
            match p_char(t2, ']') {
                Option::Some(t3) => Option::Some((Seq::empty(), t3)),
                Option::None => p_stored_items(t2),
            }
        },
        Option::None => Option::None,
    }
}

/// The history file must hold one array and nothing after it but
/// whitespace.
pub open spec fn p_history_full(t: Seq<char>) -> Option<Seq<UrlStoredV>> {
    match p_history(t) {
        Option::Some(p) => if skip_ws(p.1).len() == 0 {
            Option::Some(p.0)
        } else {
            Option::None
        },
        Option::None => Option::None,
    }
}

#[verifier::rlimit(100)]
pub fn px_stored_step(
    s: &str,
    name: &String,
    i: usize,
    k: Option<String>,
    v: Option<String>,
    tok: Option<String>,
    e: Option<u64>,
) -> (r: Option<((Option<String>, Option<String>, Option<String>, Option<u64>), usize)>)
    requires
        i <= s@.len(),
    ensures
        match p_stored_step(
            name@,
            s@.skip(i as int),
            opt_str_view(k),
            opt_str_view(v),
            opt_str_view(tok),
            e,
        ) {
            Option::Some(p) => r matches Some(q) && opt_str_view(q.0.0) == p.0.0 && opt_str_view(
                q.0.1,
            ) == p.0.1 && opt_str_view(q.0.2) == p.0.2 && q.0.3 == p.0.3 && i <= q.1 && q.1
                <= s@.len() && s@.skip(q.1 as int) == p.1,
            Option::None => r is None,
        },
{
    if str_eq(name.as_str(), "key") {
        if k.is_some() {
            None
        } else {
            match px_string(s, i) {
                Some(p) => Some(((Some(p.0), v, tok, e), p.1)),
                None => None,
            }
        }
    } else if str_eq(name.as_str(), "value") {
        if v.is_some() {
            None
        } else {
            match px_string(s, i) {
                Some(p) => Some(((k, Some(p.0), tok, e), p.1)),
                None => None,
            }
        }
    } else if str_eq(name.as_str(), "token") {
        if tok.is_some() {
            None
        } else {
            match px_string(s, i) {
                Some(p) => Some(((k, v, Some(p.0), e), p.1)),
                None => None,
            }
        }
    } else if str_eq(name.as_str(), "expire") {
        if e.is_some() {
            None
        } else {
            match px_u64(s, i) {
                Some(p) => Some(((k, v, tok, Some(p.0)), p.1)),
                None => None,
            }
        }
    } else {
        None
    }
}

#[verifier::rlimit(100)]
pub fn px_stored_members(
    s: &str,
    i: usize,
    k: Option<String>,
    v: Option<String>,
    tok: Option<String>,
    e: Option<u64>,
) -> (r: Option<(UrlStored, usize)>)
    requires
        i <= s@.len(),
    ensures
        match p_stored_members(
            s@.skip(i as int),
            opt_str_view(k),
            opt_str_view(v),
            opt_str_view(tok),
            e,
        ) {
            Option::Some(p) => r matches Some(q) && q.0@ == p.0 && i <= q.1 && q.1 <= s@.len()
                && s@.skip(q.1 as int) == p.1,
            Option::None => r is None,
        },
    decreases s@.len() - i,
{
    let i0 = px_ws(s, i);
    let (name, j1) = match px_string(s, i0) {
        Some(p) => p,
        None => { return None; },
    };
    let j2 = px_ws(s, j1);
    let j3 = match px_char(s, j2, ':') {
        Some(j) => j,
        None => { return None; },
    };
    let j4 = px_ws(s, j3);
    let (acc, j5) = match px_stored_step(s, &name, j4, k, v, tok, e) {
        Some(x) => x,
        None => { return None; },
    };
    let (k2, v2, tok2, e2) = acc;
    let j6 = px_ws(s, j5);
    match px_char(s, j6, ',') {
        Some(j7) => {
            if j7 > i {
                px_stored_members(s, j7, k2, v2, tok2, e2)
            } else {
                proof {
                    assert(s@.skip(j7 as int).len() < s@.skip(i as int).len());
                }
                None
            }
        },
        None => match px_char(s, j6, '}') {
            Some(j7) => match (k2, v2, tok2) {
                (Some(kk), Some(vv), Some(tt)) => Some(
                    (UrlStored { key: kk, value: vv, token: tt, expire: e2 }, j7),
                ),
                _ => None,
            },
            None => None,
        },
    }
}

#[verifier::rlimit(100)]
pub fn px_stored(s: &str, i: usize) -> (r: Option<(UrlStored, usize)>)
    requires
        i <= s@.len(),
    ensures
        match p_stored(s@.skip(i as int)) {
            Option::Some(p) => r matches Some(q) && q.0@ == p.0 && i <= q.1 && q.1 <= s@.len()
                && s@.skip(q.1 as int) == p.1,
            Option::None => r is None,
        },
{
    match px_char(s, i, '{') {
        Some(j1) => px_stored_members(s, j1, None, None, None, None),
        None => None,
    }
}

#[verifier::rlimit(100)]
pub fn px_stored_items(s: &str, i: usize) -> (r: Option<(Vec<UrlStored>, usize)>)
    requires
        i <= s@.len(),
    ensures
        match p_stored_items(s@.skip(i as int)) {
            Option::Some(p) => r matches Some(q) && stored_views(q.0@) == p.0 && i <= q.1
                && q.1 <= s@.len() && s@.skip(q.1 as int) == p.1,
            Option::None => r is None,
        },
    decreases s@.len() - i,
{
    let (r0, j1) = match px_stored(s, i) {
        Some(p) => p,
        None => { return None; },
    };
    let j2 = px_ws(s, j1);
    match px_char(s, j2, ',') {
        Some(j3) => {
            let j4 = px_ws(s, j3);
            if j4 > i {
                match px_stored_items(s, j4) {
                    Some(p) => {
                        let (mut v, j5) = p;
                        v.insert(0, r0);
                        proof {
                            let t = s@.skip(i as int);
                            let rp = p_stored(t)->Some_0;
                            let mp = p_stored_items(s@.skip(j4 as int))->Some_0;
                            assert(stored_views(v@) =~= seq![rp.0] + mp.0);
                        }
                        Some((v, j5))
                    },
                    None => None,
                }
            } else {
                proof {
                    assert(s@.skip(j4 as int).len() < s@.skip(i as int).len());
                }
                None
            }
        },
        None => match px_char(s, j2, ']') {
            Some(j3) => {
                let mut v: Vec<UrlStored> = Vec::new();
                v.push(r0);
                proof {
                    let t = s@.skip(i as int);
                    let rp = p_stored(t)->Some_0;
                    assert(stored_views(v@) =~= seq![rp.0]);
                }
                Some((v, j3))
            },
            None => None,
        },
    }
}

/// Parse the history file's full contents.
#[verifier::rlimit(100)]
pub fn parse_history(s: &str) -> (r: Result<Vec<UrlStored>, Error>)
    ensures
        match p_history_full(s@) {
            Option::Some(rs) => r matches Ok(v) && stored_views(v@) == rs,
            Option::None => r matches Err(e) && e matches Error::Parse(_),
        },
{
    proof {
        assert(s@.skip(0) =~= s@);
    }
    let j0 = px_ws(s, 0);
    let j1 = match px_char(s, j0, '[') {
        Some(j) => j,
        None => { return Err(Error::Parse(String::new())); },
    };
    let j2 = px_ws(s, j1);
    let (v, j3) = match px_char(s, j2, ']') {
        Some(j) => (Vec::<UrlStored>::new(), j),
        None => match px_stored_items(s, j2) {
            Some(p) => p,
            None => { return Err(Error::Parse(String::new())); },
        },
    };
    let j4 = px_ws(s, j3);
    if j4 == s.unicode_len() {
        proof {
            assert(s@.skip(j4 as int).len() == 0);
            assert(stored_views(Seq::<UrlStored>::empty()) =~= Seq::<UrlStoredV>::empty());
        }
        Ok(v)
    } else {
        proof {
            assert(s@.skip(j4 as int).len() != 0);
        }
        Err(Error::Parse(String::new()))
    }
}

// ---------------------------------------------------------------------------
// The store's round trip: loading what was saved gives the records back
// ---------------------------------------------------------------------------

pub proof fn lemma_stored_first(r: UrlStoredV)
    ensures
        stored_json(r).len() > 0,
        stored_json(r)[0] == '{',
{
}

/// Stepping through one string-valued member of the canonical rendering.
#[verifier::rlimit(100)]
pub proof fn lemma_member_str_step(name: Seq<char>, val: Seq<char>, rest2: Seq<char>)
    ensures
        skip_ws(member_str(name, val) + rest2) == member_str(name, val) + rest2,
        p_string(member_str(name, val) + rest2) == Some((name, seq![':'] + (jstr(val) + rest2))),
        skip_ws(seq![':'] + (jstr(val) + rest2)) == seq![':'] + (jstr(val) + rest2),
        p_char(seq![':'] + (jstr(val) + rest2), ':') == Some(jstr(val) + rest2),
        skip_ws(jstr(val) + rest2) == jstr(val) + rest2,
        p_string(jstr(val) + rest2) == Some((val, rest2)),
{
    let u = member_str(name, val) + rest2;
    assert(u =~= jstr(name) + (seq![':'] + (jstr(val) + rest2)));
    assert(u[0] == '"');
    assert(!is_ws('"'));
    lemma_p_string_complete(name, seq![':'] + (jstr(val) + rest2));
    assert((seq![':'] + (jstr(val) + rest2))[0] == ':');
    assert(!is_ws(':'));
    lemma_p_char_complete(':', jstr(val) + rest2);
    assert((jstr(val) + rest2)[0] == '"');
    lemma_p_string_complete(val, rest2);
}

#[verifier::rlimit(100)]
pub proof fn lemma_p_stored_complete(r: UrlStoredV, rest: Seq<char>)
    ensures
        p_stored(stored_json(r) + rest) == Some((r, rest)),
{
    reveal_strlit("key");
    reveal_strlit("value");
    reveal_strlit("token");
    reveal_strlit("expire");
    let tail0 = expire_json(r.expire) + (seq!['}'] + rest);
    let m3 = member_str("token"@, r.token) + tail0;
    let m2 = member_str("value"@, r.value) + (seq![','] + m3);
    let m1 = member_str("key"@, r.key) + (seq![','] + m2);
    assert(stored_json(r) + rest =~= seq!['{'] + m1);
    lemma_p_char_complete('{', m1);
    assert("value"@ != "key"@);
    assert("token"@ != "key"@);
    assert("token"@ != "value"@) by {
        if "token"@ == "value"@ {
            assert("token"@[0] == "value"@[0]);
            assert(false);
        }
    };
    assert("expire"@ != "key"@ && "expire"@ != "value"@ && "expire"@ != "token"@);
    lemma_member_str_step("key"@, r.key, seq![','] + m2);
    assert((seq![','] + m2)[0] == ',');
    assert(!is_ws(','));
    assert(skip_ws(seq![','] + m2) == seq![','] + m2);
    lemma_p_char_complete(',', m2);
    assert(m2.len() < m1.len());
    assert(p_stored_members(m1, Option::None, Option::None, Option::None, Option::None)
        == p_stored_members(
        m2,
        Option::Some(r.key),
        Option::None,
        Option::None,
        Option::None,
    ));
    lemma_member_str_step("value"@, r.value, seq![','] + m3);
    assert((seq![','] + m3)[0] == ',');
    assert(skip_ws(seq![','] + m3) == seq![','] + m3);
    lemma_p_char_complete(',', m3);
    assert(m3.len() < m2.len());
    assert(p_stored_members(
        m2,
        Option::Some(r.key),
        Option::None,
        Option::None,
        Option::None,
    ) == p_stored_members(
        m3,
        Option::Some(r.key),
        Option::Some(r.value),
        Option::None,
        Option::None,
    ));
    lemma_member_str_step("token"@, r.token, tail0);
    match r.expire {
        Option::None => {
            assert(tail0 =~= seq!['}'] + rest);
            assert(tail0[0] == '}');
            assert(!is_ws('}'));
            assert(skip_ws(tail0) == tail0);
            assert(p_char(tail0, ',') is None);
            lemma_p_char_complete('}', rest);
            assert(p_char(tail0, '}') == Some(rest));
            assert(UrlStoredV {
                key: r.key,
                value: r.value,
                token: r.token,
                expire: Option::None,
            } == r);
            assert(p_stored_members(
                m3,
                Option::Some(r.key),
                Option::Some(r.value),
                Option::None,
                Option::None,
            ) == Some((r, rest)));
        },
        Option::Some(n) => {
            let numrest = jnum(n as int) + (seq!['}'] + rest);
            let m4 = jstr("expire"@) + (seq![':'] + numrest);
            assert(tail0 =~= seq![','] + m4);
            assert(tail0[0] == ',');
            assert(skip_ws(tail0) == tail0);
            assert(p_char(tail0, '}') is None);
            lemma_p_char_complete(',', m4);
            assert(m4.len() < m3.len());
            assert(m4[0] == '"');
            assert(skip_ws(m4) == m4);
            lemma_p_string_complete("expire"@, seq![':'] + numrest);
            assert((seq![':'] + numrest)[0] == ':');
            assert(skip_ws(seq![':'] + numrest) == seq![':'] + numrest);
            lemma_p_char_complete(':', numrest);
            lemma_jnum_digits(n as int);
            assert(numrest[0] == jnum(n as int)[0]);
            assert(is_digit(numrest[0]));
            assert(!is_ws(numrest[0]));
            assert(skip_ws(numrest) == numrest);
            assert((seq!['}'] + rest)[0] == '}');
            lemma_p_u64_complete(n, seq!['}'] + rest);
            assert(skip_ws(seq!['}'] + rest) == seq!['}'] + rest);
            assert(p_char(seq!['}'] + rest, ',') is None);
            lemma_p_char_complete('}', rest);
            assert(p_stored_members(
                m3,
                Option::Some(r.key),
                Option::Some(r.value),
                Option::None,
                Option::None,
            ) == p_stored_members(
                m4,
                Option::Some(r.key),
                Option::Some(r.value),
                Option::Some(r.token),
                Option::None,
            ));
            assert(UrlStoredV {
                key: r.key,
                value: r.value,
                token: r.token,
                expire: Option::Some(n),
            } == r);
            assert(p_stored_members(
                m4,
                Option::Some(r.key),
                Option::Some(r.value),
                Option::Some(r.token),
                Option::None,
            ) == Some((r, rest)));
        },
    }
}

#[verifier::rlimit(100)]
pub proof fn lemma_p_stored_items_complete(rs: Seq<UrlStoredV>, rest: Seq<char>)
    requires
        rs.len() >= 1,
    ensures
        p_stored_items(stored_items(rs) + (seq![']'] + rest)) == Some((rs, rest)),
    decreases rs.len(),
{
    let t = stored_items(rs) + (seq![']'] + rest);
    if rs.len() == 1 {
        lemma_p_stored_complete(rs[0], seq![']'] + rest);
        assert((seq![']'] + rest)[0] == ']');
        assert(!is_ws(']'));
        assert(skip_ws(seq![']'] + rest) == seq![']'] + rest);
        assert(p_char(seq![']'] + rest, ',') is None);
        lemma_p_char_complete(']', rest);
        assert(seq![rs[0]] =~= rs);
    } else {
        let tail = rs.skip(1);
        let t2 = stored_items(tail) + (seq![']'] + rest);
        assert(t =~= stored_json(rs[0]) + (seq![','] + t2));
        lemma_p_stored_complete(rs[0], seq![','] + t2);
        assert((seq![','] + t2)[0] == ',');
        assert(!is_ws(','));
        assert(skip_ws(seq![','] + t2) == seq![','] + t2);
        lemma_p_char_complete(',', t2);
        lemma_stored_first(tail[0]);
        assert(t2[0] == stored_json(tail[0])[0]);
        assert(t2[0] == '{');
        assert(!is_ws('{'));
        assert(skip_ws(t2) == t2);
        assert(t.len() == stored_json(rs[0]).len() + 1 + t2.len());
        lemma_p_stored_items_complete(tail, rest);
        assert(seq![rs[0]] + tail =~= rs);
    }
}

#[verifier::rlimit(100)]
pub proof fn lemma_p_history_complete(rs: Seq<UrlStoredV>, rest: Seq<char>)
    ensures
        p_history(history_json(rs) + rest) == Some((rs, rest)),
{
    let t1 = stored_items(rs) + (seq![']'] + rest);
    let t = history_json(rs) + rest;
    assert(t =~= seq!['['] + t1);
    assert(t[0] == '[');
    assert(!is_ws('['));
    assert(skip_ws(t) == t);
    lemma_p_char_complete('[', t1);
    if rs.len() == 0 {
        assert(t1 =~= seq![']'] + rest);
        assert(t1[0] == ']');
        assert(!is_ws(']'));
        assert(skip_ws(t1) == t1);
        lemma_p_char_complete(']', rest);
        assert(Seq::<UrlStoredV>::empty() =~= rs);
    } else {
        lemma_stored_first(rs[0]);
        assert(t1[0] == stored_json(rs[0])[0]);
        assert(t1[0] == '{');
        assert(!is_ws('{'));
        assert(skip_ws(t1) == t1);
        assert(p_char(t1, ']') is None);
        lemma_p_stored_items_complete(rs, rest);
    }
}

/// Saving then loading returns the same records, in the same order.
pub proof fn lemma_history_round_trip(rs: Seq<UrlStoredV>)
    ensures
        p_history_full(history_json(rs)) == Some(rs),
{
    lemma_p_history_complete(rs, Seq::empty());
    assert(history_json(rs) + Seq::<char>::empty() =~= history_json(rs));
}

/// A fresh, empty history file parses to no records.
pub proof fn lemma_fresh_history()
    ensures
        p_history_full("[]"@) == Some(Seq::<UrlStoredV>::empty()),
{
    lemma_history_round_trip(Seq::empty());
    reveal_strlit("[]");
    assert("[]"@ =~= history_json(Seq::<UrlStoredV>::empty()));
}

/// The load side of the store, as a decision on the file's contents:
/// absent contents yield no records and the text a fresh file must be
/// given; present contents are parsed as the history array.
#[verifier::rlimit(100)]
pub fn load_step(contents: Option<&str>) -> (r: Result<(Vec<UrlStored>, Option<String>), Error>)
    ensures
        contents is None ==> (r matches Ok(p) && p.0@ == Seq::<UrlStored>::empty() && (p.1
            matches Some(w) && w@ == "[]"@)),
        contents matches Some(t) ==> match p_history_full(t@) {
            Option::Some(rs) => r matches Ok(p) && stored_views(p.0@) == rs && p.1 is None,
            Option::None => r matches Err(e) && e matches Error::Parse(_),
        },
{
    match contents {
        Option::None => {
            let mut w = String::new();
            push_lit(&mut w, "[]");
            proof {
                assert(w@ =~= "[]"@);
            }
            Ok((Vec::new(), Some(w)))
        },
        Option::Some(t) => match parse_history(t) {
            Ok(v) => Ok((v, None)),
            Err(e) => Err(e),
        },
    }
}

/// Append the record a successful creation yields; the caller then
/// persists the whole sequence.
pub fn apply_created(histories: &mut Vec<UrlStored>, resp: crate::model::PostResponse)
    ensures
        final(histories)@.len() == old(histories)@.len() + 1,
        forall|q: int| 0 <= q < old(histories)@.len() ==> final(histories)@[q] == old(
            histories,
        )@[q],
        final(histories)@[old(histories)@.len() as int]@ == (UrlStoredV {
            key: resp@.key,
            value: resp@.value,
            token: resp@.token,
            expire: resp@.expire,
        }),
{
    let r = crate::model::record_of(resp);
    histories.push(r);
}

} // verus!
