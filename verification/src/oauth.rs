//! The sign-in redirect: what the browser's request to the local loopback
//! listener carries.
use crate::text::{chars_of, eq_str, split_whitespace, string_of, views, words};
use vstd::prelude::*;

verus! {

/// What the `url` crate (as `reqwest::Url`) reads from an address: its
/// query pairs, percent-decoded, in order, or the text of its parse error.
pub uninterp spec fn url_query(url: Seq<char>) -> Result<Seq<(Seq<char>, Seq<char>)>, Seq<char>>;

/// The pairs as texts.
pub open spec fn pair_views(p: Seq<(String, String)>) -> Seq<(Seq<char>, Seq<char>)> {
    p.map_values(|x: (String, String)| (x.0@, x.1@))
}

/// `reqwest::Url::parse` read with `query_pairs`; its result is named.
#[verifier::external_body]
fn parse_query(url: &str) -> (r: Result<Vec<(String, String)>, String>)
    ensures
        match r {
            Ok(p) => url_query(url@) == Ok::<Seq<(Seq<char>, Seq<char>)>, Seq<char>>(pair_views(p@)),
            Err(e) => url_query(url@) == Err::<Seq<(Seq<char>, Seq<char>)>, Seq<char>>(e@),
        },
{
    match reqwest::Url::parse(url) {
        Ok(u) => Ok(u.query_pairs().map(|(k, v)| (k.into_owned(), v.into_owned())).collect()),
        Err(e) => Err(e.to_string()),
    }
}

/// What the browser's request line says.
#[derive(Debug)]
pub enum AuthRequest {
    /// Not a `GET` with a target: wait for the next request.
    NotGet,
    /// The redirect carries this authorization code.
    Code(String),
    /// The redirect carries no code.
    NoCode,
    /// The target is no valid address; the text says why.
    BadUrl(String),
}

/// The value of the first pair named `code`.
pub open spec fn code_of(pairs: Seq<(Seq<char>, Seq<char>)>) -> Option<Seq<char>>
    decreases pairs.len(),
{
    if pairs.len() == 0 {
        None
    } else if pairs[0].0 == "code"@ {
        Some(pairs[0].1)
    } else {
        code_of(pairs.drop_first())
    }
}

/// How a request line is read: its words must be `GET` and a target; the
/// target, put after `http://localhost`, is read as an address, and its
/// first `code` query pair is the authorization code.
pub open spec fn auth_request_spec(line: Seq<char>, r: AuthRequest) -> bool {
    let w = words(line);
    if w.len() < 2 || w[0] != "GET"@ {
        r is NotGet
    } else {
        match url_query("http://localhost"@ + w[1]) {
            Err(e) => r matches AuthRequest::BadUrl(m) && m@ == "Failed to parse redirect URL: "@ + e,
            Ok(pairs) => match code_of(pairs) {
                Some(c) => r matches AuthRequest::Code(x) && x@ == c,
                None => r is NoCode,
            },
        }
    }
}

fn first_code(pairs: &Vec<(String, String)>) -> (r: Option<String>)
    ensures
        match code_of(pair_views(pairs@)) {
            Some(c) => r matches Some(x) && x@ == c,
            None => r is None,
        },
{
    let ghost pv = pair_views(pairs@);
    let mut i: usize = 0;
    proof {
        assert(pv.skip(0) =~= pv);
    }
    while i < pairs.len()
        invariant
            i <= pairs@.len(),
            pv == pair_views(pairs@),
            code_of(pv) == code_of(pv.skip(i as int)),
        decreases pairs.len() - i,
    {
        proof {
            assert(pv.skip(i as int)[0] == pv[i as int]);
            assert(pv.skip(i as int).drop_first() =~= pv.skip(i + 1));
        }
        if eq_str(&chars_of(pairs[i].0.as_str()), "code") {
            return Some(pairs[i].1.clone());
        }
        i += 1;
    }
    proof {
        assert(pv.skip(i as int).len() == 0);
    }
    None
}

/// Reads the browser's request line, such as `GET /?code=4/abc HTTP/1.1`.
pub fn read_auth_request(line: &str) -> (r: AuthRequest)
    ensures
        auth_request_spec(line@, r),
{
    let w = split_whitespace(&chars_of(line));
    proof {
        assert(views(w@).len() == w@.len());
    }
    if w.len() < 2 {
        return AuthRequest::NotGet;
    }
    proof {
        assert(views(w@)[0] == w@[0]@);
        assert(views(w@)[1] == w@[1]@);
    }
    if !eq_str(&w[0], "GET") {
        return AuthRequest::NotGet;
    }
    let mut full = String::from_str("http://localhost");
    full.append(string_of(&w[1]).as_str());
    match parse_query(full.as_str()) {
        Err(e) => {
            let mut m = String::from_str("Failed to parse redirect URL: ");
            m.append(e.as_str());
            AuthRequest::BadUrl(m)
        },
        Ok(pairs) => match first_code(&pairs) {
            Some(c) => AuthRequest::Code(c),
            None => AuthRequest::NoCode,
        },
    }
}

} // verus!
