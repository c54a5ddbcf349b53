//! Parser for the single HTTP request the bank's consent page redirects back
//! to the local listener: request-line validation, query-string splitting,
//! and extraction of the `ref` correlation value.

use vstd::prelude::*;

use crate::text::find_char;
use crate::text::find_char_in;
use crate::text::split_on;
use crate::text::split_parts;
use crate::text::split_whitespace;
use crate::text::split_ws;
use crate::text::views;

verus! {

/// Failures of the callback capture, in the order the request is examined.
#[derive(Debug, PartialEq, Eq, Clone, Copy)]
pub enum CallbackError {
    /// The request is empty or its request line has fewer than three tokens.
    BadRequest,
    /// The request method is not GET (compared case-insensitively).
    UnsupportedMethod,
    /// The request target carries no query string.
    MissingQuery,
    /// The query string has no `ref` key.
    MissingRef,
}

/// The method token spells GET up to ASCII case.
pub open spec fn is_get_method(m: Seq<char>) -> bool {
    &&& m.len() == 3
    &&& (m[0] == 'g' || m[0] == 'G')
    &&& (m[1] == 'e' || m[1] == 'E')
    &&& (m[2] == 't' || m[2] == 'T')
}

/// A query pair that splits into exactly two parts on `=`; anything else is
/// malformed and dropped.
pub open spec fn pair_of(p: Seq<char>) -> Option<(Seq<char>, Seq<char>)> {
    let kv = split_on(p, '=');
    if kv.len() == 2 {
        Some((kv[0], kv[1]))
    } else {
        None
    }
}

/// The well-formed pairs among `parts`, in order.
pub open spec fn pairs_from(parts: Seq<Seq<char>>) -> Seq<(Seq<char>, Seq<char>)>
    decreases parts.len(),
{
    if parts.len() == 0 {
        Seq::empty()
    } else {
        let rest = pairs_from(parts.drop_first());
        match pair_of(parts[0]) {
            Some(kv) => seq![kv] + rest,
            None => rest,
        }
    }
}

/// The well-formed `key=value` pairs of a query string, in order.
pub open spec fn query_pairs(q: Seq<char>) -> Seq<(Seq<char>, Seq<char>)> {
    pairs_from(split_on(q, '&'))
}

/// Value of the last pair carrying `key`, if any: a repeated key is won by
/// its last occurrence.
pub open spec fn lookup_last(pairs: Seq<(Seq<char>, Seq<char>)>, key: Seq<char>) -> Option<
    Seq<char>,
>
    decreases pairs.len(),
{
    if pairs.len() == 0 {
        None
    } else if pairs.last().0 == key {
        Some(pairs.last().1)
    } else {
        lookup_last(pairs.drop_last(), key)
    }
}

/// What parsing the raw request lines yields: the query pairs of a GET
/// target, or the error naming the first check that failed.
pub open spec fn parse_request_spec(req: Seq<Seq<char>>) -> Result<
    Seq<(Seq<char>, Seq<char>)>,
    CallbackError,
> {
    if req.len() == 0 {
        Err(CallbackError::BadRequest)
    } else {
        let toks = split_ws(req[0]);
        if toks.len() < 3 {
            Err(CallbackError::BadRequest)
        } else if !is_get_method(toks[0]) {
            Err(CallbackError::UnsupportedMethod)
        } else {
            let target = toks[1];
            let qpos = find_char(target, '?');
            if qpos < 0 {
                Err(CallbackError::MissingQuery)
            } else {
                Ok(query_pairs(target.subrange(qpos + 1, target.len() as int)))
            }
        }
    }
}

/// The session `ref` the callback carries, or why it cannot be had.
pub open spec fn callback_ref_spec(req: Seq<Seq<char>>) -> Result<Seq<char>, CallbackError> {
    match parse_request_spec(req) {
        Err(e) => Err(e),
        Ok(pairs) => match lookup_last(pairs, "ref"@) {
            Some(v) => Ok(v),
            None => Err(CallbackError::MissingRef),
        },
    }
}

/// The views of a sequence of string pairs.
pub open spec fn pair_views(v: Seq<(String, String)>) -> Seq<(Seq<char>, Seq<char>)> {
    v.map_values(|p: (String, String)| (p.0@, p.1@))
}

/// Appending one part appends its well-formed pair, if it has one.
pub proof fn lemma_pairs_from_snoc(parts: Seq<Seq<char>>, x: Seq<char>)
    ensures
        pairs_from(parts.push(x)) == pairs_from(parts) + (match pair_of(x) {
            Some(kv) => seq![kv],
            None => Seq::<(Seq<char>, Seq<char>)>::empty(),
        }),
    decreases parts.len(),
{
    if parts.len() == 0 {
        let single = parts.push(x);
        assert(single[0] == x);
        assert(single.drop_first() =~= Seq::<Seq<char>>::empty());
        assert(parts =~= Seq::<Seq<char>>::empty());
        assert(pairs_from(Seq::<Seq<char>>::empty()) == Seq::<(Seq<char>, Seq<char>)>::empty());
        match pair_of(x) {
            Some(kv) => {
                assert(pairs_from(single) =~~= pairs_from(parts) + seq![kv]);
            },
            None => {
                assert(pairs_from(single) =~~= pairs_from(parts));
            },
        }
    } else {
        lemma_pairs_from_snoc(parts.drop_first(), x);
        let whole = parts.push(x);
        assert(whole[0] == parts[0]);
        assert(whole.drop_first() =~~= parts.drop_first().push(x));
        match pair_of(x) {
            Some(kv) => {
                assert(pairs_from(whole) =~~= pairs_from(parts) + seq![kv]);
            },
            None => {
                assert(pairs_from(whole) =~~= pairs_from(parts));
            },
        }
    }
}

fn is_get(m: &str) -> (b: bool)
    ensures
        b == is_get_method(m@),
{
    if m.unicode_len() != 3 {
        return false;
    }
    let c0 = m.get_char(0);
    let c1 = m.get_char(1);
    let c2 = m.get_char(2);
    (c0 == 'g' || c0 == 'G') && (c1 == 'e' || c1 == 'E') && (c2 == 't' || c2 == 'T')
}

/// The well-formed `key=value` pairs of a query string, as `query_pairs`
/// lists them; malformed pairs are dropped, not errors.
fn query_pairs_of(q: &str) -> (r: Vec<(String, String)>)
    ensures
        pair_views(r@) == query_pairs(q@),
{
    let parts = split_parts(q, '&');
    let mut out: Vec<(String, String)> = Vec::new();
    let mut i: usize = 0;
    proof {
        assert(views(parts@).subrange(0, 0) =~= Seq::<Seq<char>>::empty());
        assert(pair_views(out@) =~~= pairs_from(views(parts@).subrange(0, 0)));
    }
    while i < parts.len()
        invariant
            i <= parts.len(),
            views(parts@) == split_on(q@, '&'),
            pair_views(out@) == pairs_from(views(parts@).subrange(0, i as int)),
        decreases parts.len() - i,
    {
        let ghost prev = out@;
        let kv = split_parts(parts[i].as_str(), '=');
        proof {
            assert(views(parts@)[i as int] == parts@[i as int]@);
            lemma_pairs_from_snoc(views(parts@).subrange(0, i as int), parts@[i as int]@);
            assert(views(parts@).subrange(0, i as int).push(parts@[i as int]@) =~~= views(
                parts@,
            ).subrange(0, i + 1));
        }
        if kv.len() == 2 {
            let key = kv[0].clone();
            let value = kv[1].clone();
            proof {
                assert(views(kv@)[0] == kv@[0]@);
                assert(views(kv@)[1] == kv@[1]@);
                assert(pair_of(parts@[i as int]@) == Some((kv@[0]@, kv@[1]@)));
                assert(pair_views(prev.push((key, value))) =~~= pair_views(prev).push(
                    (key@, value@),
                ));
                assert(pair_views(prev).push((key@, value@)) =~~= pair_views(prev) + seq![
                    (kv@[0]@, kv@[1]@),
                ]);
            }
            out.push((key, value));
        } else {
            proof {
                assert(pair_of(parts@[i as int]@) is None);
            }
        }
        i = i + 1;
    }
    proof {
        assert(views(parts@).subrange(0, parts@.len() as int) =~= views(parts@));
    }
    out
}

/// Parse the captured request lines: the first line must be a GET request
/// line of at least three tokens whose target has a query string; the query
/// pairs come back in order, malformed pairs silently dropped.
pub fn parse_request(req: &Vec<String>) -> (r: Result<Vec<(String, String)>, CallbackError>)
    ensures
        r matches Ok(pairs) ==> parse_request_spec(views(req@)) == Ok::<_, CallbackError>(
            pair_views(pairs@),
        ),
        r matches Err(e) ==> parse_request_spec(views(req@)) == Err::<
            Seq<(Seq<char>, Seq<char>)>,
            _,
        >(e),
{
    if req.len() == 0 {
        return Err(CallbackError::BadRequest);
    }
    let line = req[0].as_str();
    proof {
        assert(views(req@)[0] == req@[0]@);
    }
    let toks = split_whitespace(line);
    if toks.len() < 3 {
        return Err(CallbackError::BadRequest);
    }
    proof {
        assert(views(toks@)[0] == toks@[0]@);
        assert(views(toks@)[1] == toks@[1]@);
    }
    if !is_get(toks[0].as_str()) {
        return Err(CallbackError::UnsupportedMethod);
    }
    let target = toks[1].as_str();
    let n = target.unicode_len();
    match find_char_in(target, '?') {
        None => Err(CallbackError::MissingQuery),
        Some(p) => {
            let query = target.substring_char(p + 1, n);
            Ok(query_pairs_of(query))
        },
    }
}

/// Value of the last query pair carrying `key`, if any.
fn lookup_value(pairs: &Vec<(String, String)>, key: &String) -> (r: Option<String>)
    ensures
        r matches Some(v) ==> lookup_last(pair_views(pairs@), key@) == Some(v@),
        r is None ==> lookup_last(pair_views(pairs@), key@) is None,
{
    let mut i: usize = pairs.len();
    proof {
        assert(pair_views(pairs@).subrange(0, pairs@.len() as int) =~= pair_views(pairs@));
    }
    while i > 0
        invariant
            i <= pairs.len(),
            lookup_last(pair_views(pairs@), key@) == lookup_last(
                pair_views(pairs@).subrange(0, i as int),
                key@,
            ),
        decreases i,
    {
        proof {
            let sub = pair_views(pairs@).subrange(0, i as int);
            assert(sub.last() == pair_views(pairs@)[i - 1]);
            assert(pair_views(pairs@)[i - 1] == (pairs@[i - 1].0@, pairs@[i - 1].1@));
            assert(sub.drop_last() =~= pair_views(pairs@).subrange(0, i - 1));
        }
        if pairs[i - 1].0 == *key {
            return Some(pairs[i - 1].1.clone());
        }
        i = i - 1;
    }
    proof {
        assert(pair_views(pairs@).subrange(0, 0) =~= Seq::<(Seq<char>, Seq<char>)>::empty());
    }
    None
}

/// Extract the session `ref` from the captured request lines, per
/// `callback_ref_spec`: parse the request, then take the last `ref` pair.
pub fn callback_ref(req: &Vec<String>) -> (r: Result<String, CallbackError>)
    ensures
        r matches Ok(v) ==> callback_ref_spec(views(req@)) == Ok::<_, CallbackError>(v@),
        r matches Err(e) ==> callback_ref_spec(views(req@)) == Err::<Seq<char>, _>(e),
{
    match parse_request(req) {
        Err(e) => Err(e),
        Ok(pairs) => {
            let key = String::from_str("ref");
            match lookup_value(&pairs, &key) {
                Some(v) => Ok(v),
                None => Err(CallbackError::MissingRef),
            }
        },
    }
}

/// The fixed HTTP response the listener writes back after any parse
/// outcome: a 200 with a static HTML thank-you page.
pub open spec fn response_text() -> Seq<char> {
    "HTTP/1.1 200 OK\r\nContent-Type: text/html; charset=UTF-8\r\n\r\n<html>\r\n<body>\r\n<h2>Thank You!</h2>\r\n<p>You can now go back to the tool :)</p>\r\n</body>\r\n</html>\r\n"@
}

/// The response the listener sends, regardless of how parsing went.
pub fn callback_response() -> (r: String)
    ensures
        r@ == response_text(),
{
    String::from_str(
        "HTTP/1.1 200 OK\r\nContent-Type: text/html; charset=UTF-8\r\n\r\n<html>\r\n<body>\r\n<h2>Thank You!</h2>\r\n<p>You can now go back to the tool :)</p>\r\n</body>\r\n</html>\r\n",
    )
}

} // verus!
