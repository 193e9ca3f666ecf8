//! Request-routing and response-dispatch core for a single-route HTTP
//! greeting service.
//!
//! Given an inbound request path, the dispatcher extracts the name segment
//! matched by the route template `/{name}`, if any, and produces the
//! response body `Hello {name}!`, falling back to the default name `World`
//! when no name segment is present. The dispatcher is a total, pure
//! function: every request receives a response, and the response depends
//! on nothing but the request. Socket binding and the HTTP transport are
//! external collaborators and live outside this crate.

use vstd::prelude::*;

verus! {

/// An inbound request. Only the path matters to the dispatcher; a request
/// is created per inbound connection and discarded after its response is
/// produced.
pub struct Request {
    pub path: String,
}

/// An outbound response: a UTF-8 text body, consumed by the transport
/// layer.
pub struct Response {
    pub body: String,
}

/// The name the greeting uses: the matched value when one is present and
/// non-empty, the default `World` otherwise.
pub open spec fn effective_name(name: Option<Seq<char>>) -> Seq<char> {
    match name {
        Some(n) => if n.len() > 0 {
            n
        } else {
            "World"@
        },
        None => "World"@,
    }
}

/// The greeting body for a name: exactly `Hello {name}!`, with no trimming
/// and no escaping.
pub open spec fn greeting_of(name: Seq<char>) -> Seq<char> {
    "Hello "@ + name + "!"@
}

/// The name segment the route template `/{name}` matches in a path:
/// everything after the leading slash, provided the path starts with one
/// and the remainder is a single non-empty segment. The root path `/` and
/// paths of several segments match no name.
pub open spec fn match_name(path: Seq<char>) -> Option<Seq<char>> {
    if path.len() > 1 && path[0] == '/' && !path.subrange(1, path.len() as int).contains('/') {
        Some(path.subrange(1, path.len() as int))
    } else {
        None
    }
}

/// The response body the dispatcher owes for a request path.
pub open spec fn response_of(path: Seq<char>) -> Seq<char> {
    greeting_of(effective_name(match_name(path)))
}

/// The view of an optional name argument.
pub open spec fn name_view(name: Option<&str>) -> Option<Seq<char>> {
    match name {
        Some(n) => Some(n@),
        None => None,
    }
}

/// Produce the greeting body for an optional name value.
pub fn greet(name: Option<&str>) -> (r: String)
    ensures
        r@ == greeting_of(effective_name(name_view(name))),
{
    let picked: &str = match name {
        Some(n) => if n.is_empty() {
            "World"
        } else {
            n
        },
        None => "World",
    };
    String::from_str("Hello ").concat(picked).concat("!")
}

/// Extract the name segment the route template `/{name}` matches in
/// `path`, if any.
pub fn extract_name(path: &str) -> (r: Option<&str>)
    ensures
        match r {
            Some(n) => match_name(path@) == Some(n@),
            None => match_name(path@) is None,
        },
{
    let len = path.unicode_len();
    if len <= 1 {
        return None;
    }
    if path.get_char(0) != '/' {
        return None;
    }
    let mut i: usize = 1;
    while i < len
        invariant
            1 <= i <= len,
            1 < len == path@.len(),
            path@[0] == '/',
            forall|j: int| 1 <= j < i ==> path@[j] != '/',
        decreases len - i,
    {
        if path.get_char(i) == '/' {
            proof {
                assert(path@.subrange(1, len as int)[i - 1] == '/');
            }
            return None;
        }
        i += 1;
    }
    let rest = path.substring_char(1, len);
    proof {
        assert forall|k: int| 0 <= k < path@.subrange(1, len as int).len() implies path@.subrange(
            1,
            len as int,
        )[k] != '/' by {
            assert(path@.subrange(1, len as int)[k] == path@[k + 1]);
        }
    }
    Some(rest)
}

/// Dispatch a request: route its path and produce the greeting response.
/// Total over all inputs, with no side effects.
pub fn dispatch(req: &Request) -> (resp: Response)
    ensures
        resp.body@ == response_of(req.path@),
{
    let name = extract_name(req.path.as_str());
    let body = greet(name);
    Response { body }
}

/// The dispatcher is a pure function of the request: two requests with
/// equal paths receive equal response bodies, so repeating a request
/// yields a byte-identical response.
pub proof fn lemma_response_deterministic(p1: Seq<char>, p2: Seq<char>)
    requires
        p1 == p2,
    ensures
        response_of(p1) == response_of(p2),
{
}

/// The greeting interpolates the name exactly: two names receive the same
/// greeting body if and only if they are the same name.
pub proof fn lemma_greeting_injective(n1: Seq<char>, n2: Seq<char>)
    ensures
        greeting_of(n1) == greeting_of(n2) <==> n1 == n2,
{
    if greeting_of(n1) == greeting_of(n2) {
        let h = "Hello "@;
        assert(greeting_of(n1).len() == h.len() + n1.len() + "!"@.len());
        assert(greeting_of(n2).len() == h.len() + n2.len() + "!"@.len());
        assert forall|i: int| 0 <= i < n1.len() implies n1[i] == n2[i] by {
            assert(greeting_of(n1)[h.len() + i] == n1[i]);
            assert(greeting_of(n2)[h.len() + i] == n2[i]);
        }
        assert(n1 =~= n2);
    }
}

/// A request for a single non-empty name segment is answered with the
/// greeting for exactly that name.
pub proof fn lemma_named_request(n: Seq<char>)
    requires
        n.len() > 0,
        !n.contains('/'),
    ensures
        response_of(seq!['/'] + n) == greeting_of(n),
{
    let p = seq!['/'] + n;
    assert(p.subrange(1, p.len() as int) =~= n);
}

/// Responses are correlated to their own requests, with no cross-talk:
/// requests for distinct names receive distinct response bodies.
pub proof fn lemma_no_cross_talk(n1: Seq<char>, n2: Seq<char>)
    requires
        n1.len() > 0,
        !n1.contains('/'),
        n2.len() > 0,
        !n2.contains('/'),
        n1 != n2,
    ensures
        response_of(seq!['/'] + n1) != response_of(seq!['/'] + n2),
{
    lemma_named_request(n1);
    lemma_named_request(n2);
    lemma_greeting_injective(n1, n2);
}

} // verus!
