//! Authentication of the requests that ask for a WebSocket.
//!
//! A token comes from the `Authorization` header or, where that brings none, from the query
//! string. The application says whom it belongs to.
use axum::http::{HeaderMap, HeaderValue};
use vstd::prelude::*;

use crate::foreign::{
    decode_query, decoded_query, first_header, first_header_values, header_text, is_visible,
    lower_case, pairs_view,
};
use crate::text::{strip_prefix, without_prefix};

verus! {

/// The status of the answer to a request that is not authenticated.
pub const UNAUTHORIZED: u16 = 401;

/// The public trait the user's `AppState` must implement to enable `WsAuth`.
///
/// This trait decouples the authentication mechanism from the extractor, allowing
/// any token validation strategy to be used.
pub trait TokenValidator {
    /// The user type that is returned upon successful validation.
    type User;

    /// The error type returned on validation failure.
    type Error;

    /// Validates a token string and returns a user on success.
    ///
    /// This is where you implement your specific authentication logic, such as
    /// decoding a JWT or querying a database.
    ///
    /// # Arguments
    /// * `token` - The token string extracted from the request.
    fn validate_token(&self, token: &str) -> (outcome: Result<Self::User, Self::Error>);
}

/// The generic WebSocket authentication extractor.
///
/// It holds the validated user object of type `U`. If authentication fails, the request is
/// rejected with a `401 Unauthorized` response.
#[derive(Debug)]
pub struct WsAuth<U>(pub U);

/// The token in an `Authorization` header, given the first value of each header: what
/// follows `Bearer ` in a value that is text.
pub open spec fn bearer_token(headers: Map<Seq<char>, Seq<u8>>) -> Option<Seq<char>> {
    let name = lower_case("Authorization"@);
    if headers.contains_key(name) && (forall|i: int|
        0 <= i < headers[name].len() ==> is_visible(#[trigger] headers[name][i])) {
        without_prefix(headers[name].map_values(|byte: u8| byte as char), "Bearer "@)
    } else {
        None
    }
}

/// The token among the names and values of a query: the value that is named `token`, where
/// exactly one is.
pub open spec fn token_among(pairs: Seq<(Seq<char>, Seq<char>)>) -> Option<Seq<char>> {
    let tokens = pairs.filter(|pair: (Seq<char>, Seq<char>)| pair.0 == "token"@);
    if tokens.len() == 1 {
        Some(tokens[0].1)
    } else {
        None
    }
}

/// The token in a query string.
pub open spec fn query_token(query: Seq<char>) -> Option<Seq<char>> {
    match decoded_query(query) {
        Some(pairs) => token_among(pairs),
        None => None,
    }
}

/// The token of a request: that of its header, or else that of its query string.
pub open spec fn request_token(headers: Map<Seq<char>, Seq<u8>>, query: Seq<char>) -> Option<
    Seq<char>,
> {
    match bearer_token(headers) {
        Some(token) => Some(token),
        None => query_token(query),
    }
}

/// The characters of a text that may be missing.
pub open spec fn text_view(text: Option<String>) -> Option<Seq<char>> {
    match text {
        Some(text) => Some(text@),
        None => None,
    }
}

/// The bearer token from the Authorization header.
pub fn get_token_from_headers(headers: &HeaderMap<HeaderValue>) -> (token: Option<String>)
    ensures
        text_view(token) == bearer_token(first_header_values(*headers)),
{
    match first_header(headers, "Authorization") {
        Some(value) => match header_text(value.as_slice()) {
            Some(text) => match strip_prefix(text.as_str(), "Bearer ") {
                Some(token) => Some(token.to_owned()),
                None => None,
            },
            None => None,
        },
        None => None,
    }
}

/// The token among the decoded names and values of a query string.
pub fn get_token_from_pairs(pairs: &Vec<(String, String)>) -> (token: Option<String>)
    ensures
        text_view(token) == token_among(pairs_view(pairs@)),
{
    let ghost all = pairs_view(pairs@);
    let ghost named = |pair: (Seq<char>, Seq<char>)| pair.0 == "token"@;
    let name: String = "token".to_owned();
    let mut token: Option<String> = None;
    let mut i: usize = 0;
    while i < pairs.len()
        invariant
            i <= pairs@.len(),
            name@ == "token"@,
            all == pairs_view(pairs@),
            named == (|pair: (Seq<char>, Seq<char>)| pair.0 == "token"@),
            match token {
                Some(token) => all.take(i as int).filter(named).len() == 1 && token@ == all.take(
                    i as int,
                ).filter(named)[0].1,
                None => all.take(i as int).filter(named).len() == 0,
            },
        decreases pairs@.len() - i,
    {
        proof {
            reveal(Seq::filter);
            assert(all.take(i + 1).drop_last() =~= all.take(i as int));
            assert(all.take(i + 1).last() == (pairs@[i as int].0@, pairs@[i as int].1@));
        }
        if pairs[i].0 == name {
            if token.is_some() {
                proof {
                    assert(all.take(i + 1).is_prefix_of(all));
                    all.take(i + 1).lemma_filter_monotone(all, named);
                }
                return None;
            }
            token = Some(pairs[i].1.clone());
        }
        i = i + 1;
    }
    assert(all.take(i as int) =~= all);
    token
}

/// The token from a query string.
pub fn get_token_from_query(query: &str) -> (token: Option<String>)
    ensures
        text_view(token) == query_token(query@),
{
    match decode_query(query) {
        Some(pairs) => get_token_from_pairs(&pairs),
        None => None,
    }
}

/// The token of a request, from the header or the query string.
pub fn get_token(headers: &HeaderMap<HeaderValue>, query: &str) -> (token: Option<String>)
    ensures
        text_view(token) == request_token(first_header_values(*headers), query@),
{
    match get_token_from_headers(headers) {
        Some(token) => Some(token),
        None => get_token_from_query(query),
    }
}

impl<U> WsAuth<U> {
    /// What becomes of a request whose token was validated with this outcome.
    pub open spec fn decided<X>(outcome: Result<U, X>) -> Result<WsAuth<U>, u16> {
        match outcome {
            Ok(user) => Ok(WsAuth(user)),
            Err(_) => Err(UNAUTHORIZED),
        }
    }

    /// What becomes of a request whose token was validated with this outcome: the user is
    /// admitted, or the request rejected.
    pub fn decide<X>(outcome: Result<U, X>) -> (decision: Result<WsAuth<U>, u16>)
        ensures
            decision == Self::decided(outcome),
    {
        match outcome {
            Ok(user) => Ok(WsAuth(user)),
            Err(_) => Err(UNAUTHORIZED),
        }
    }

    /// Authenticates a request: its token is handed to the validator, and a request without
    /// one is rejected.
    pub fn from_request_parts<S: TokenValidator<User = U>>(
        headers: &HeaderMap<HeaderValue>,
        query: &str,
        state: &S,
    ) -> (decision: Result<WsAuth<U>, u16>)
        ensures
            match request_token(first_header_values(*headers), query@) {
                Some(token) => exists|handed: &str, outcome: Result<U, S::Error>|
                    handed@ == token && #[trigger] call_ensures(
                        S::validate_token,
                        (state, handed),
                        outcome,
                    ) && decision == Self::decided(outcome),
                None => decision == Err::<WsAuth<U>, u16>(UNAUTHORIZED),
            },
    {
        match get_token(headers, query) {
            Some(token) => Self::decide(state.validate_token(token.as_str())),
            None => Err(UNAUTHORIZED),
        }
    }
}

/// Where the header brings a token, the query string does not matter.
pub proof fn law_header_takes_precedence(
    headers: Map<Seq<char>, Seq<u8>>,
    query: Seq<char>,
    other_query: Seq<char>,
)
    requires
        bearer_token(headers) is Some,
    ensures
        request_token(headers, query) == bearer_token(headers),
        request_token(headers, query) == request_token(headers, other_query),
{
}

/// The name of the header in lower case.
proof fn lemma_header_name()
    ensures
        lower_case("Authorization"@) == "authorization"@,
{
    reveal_strlit("Authorization");
    reveal_strlit("authorization");
    assert(lower_case("Authorization"@) =~= "authorization"@);
}

/// The token of a header is all that its first value holds behind `Bearer `: a text is the
/// token exactly where the bytes of that value, all of them visible, read `Bearer ` and then
/// the text.
pub proof fn law_bearer_token_is_whole(
    headers: &HeaderMap<HeaderValue>,
    token: Option<String>,
    text: Seq<char>,
)
    requires
        call_ensures(get_token_from_headers, (headers,), token),
    ensures
        (token matches Some(token) && token@ == text) <==> {
            let value = first_header_values(*headers)["authorization"@];
            &&& first_header_values(*headers).contains_key("authorization"@)
            &&& value.len() == "Bearer "@.len() + text.len()
            &&& forall|i: int|
                0 <= i < value.len() ==> 32 <= #[trigger] value[i] < 127 || value[i] == 9
            &&& forall|i: int|
                0 <= i < value.len() ==> #[trigger] value[i] as char == ("Bearer "@ + text)[i]
        },
{
    let values = first_header_values(*headers);
    let value = values["authorization"@];
    let chars = value.map_values(|byte: u8| byte as char);
    let prefix = "Bearer "@;
    lemma_header_name();
    if prefix.is_prefix_of(chars) {
        assert(prefix + chars.skip(prefix.len() as int) =~= chars);
    }
    if value.len() == prefix.len() + text.len() && (forall|i: int|
        0 <= i < value.len() ==> #[trigger] value[i] as char == (prefix + text)[i]) {
        assert(chars =~= prefix + text);
        assert(chars.subrange(0, prefix.len() as int) =~= prefix);
        assert(chars.skip(prefix.len() as int) =~= text);
    }
    if token matches Some(token) && token@ == text {
        assert(chars == prefix + text);
        assert forall|i: int| 0 <= i < value.len() implies #[trigger] value[i] as char == (prefix
            + text)[i] by {
            assert(chars[i] == value[i] as char);
        }
    }
}

/// Where exactly one name is `token`, its value is what is found under that name.
proof fn lemma_token_among(pairs: Seq<(Seq<char>, Seq<char>)>, at: int)
    requires
        0 <= at < pairs.len(),
        forall|i: int| 0 <= i < pairs.len() ==> (#[trigger] pairs[i].0 == "token"@ <==> i == at),
    ensures
        token_among(pairs) == Some(pairs[at].1),
{
    let named = |pair: (Seq<char>, Seq<char>)| pair.0 == "token"@;
    lemma_named_only(pairs, named, at);
}

/// Where one item alone is wanted, it alone is left of the sequence.
proof fn lemma_named_only<T>(items: Seq<T>, wanted: spec_fn(T) -> bool, at: int)
    requires
        0 <= at < items.len(),
        forall|i: int| 0 <= i < items.len() ==> (wanted(#[trigger] items[i]) <==> i == at),
    ensures
        items.filter(wanted) == seq![items[at]],
    decreases items.len(),
{
    reveal(Seq::filter);
    let front = items.drop_last();
    assert forall|i: int| 0 <= i < front.len() implies (wanted(#[trigger] front[i]) <==> i
        == at) by {
        assert(front[i] == items[i]);
    }
    if at == front.len() {
        lemma_named_none(front, wanted);
    } else {
        lemma_named_only(front, wanted, at);
        assert(!wanted(items[front.len() as int]));
    }
    assert(items.filter(wanted) =~= seq![items[at]]);
}

/// Where no item is wanted, none is left of the sequence.
proof fn lemma_named_none<T>(items: Seq<T>, wanted: spec_fn(T) -> bool)
    requires
        forall|i: int| 0 <= i < items.len() ==> !wanted(#[trigger] items[i]),
    ensures
        items.filter(wanted) == Seq::<T>::empty(),
    decreases items.len(),
{
    reveal(Seq::filter);
    if items.len() > 0 {
        let front = items.drop_last();
        assert forall|i: int| 0 <= i < front.len() implies !wanted(#[trigger] front[i]) by {
            assert(front[i] == items[i]);
        }
        lemma_named_none(front, wanted);
        assert(!wanted(items[front.len() as int]));
    }
    assert(items.filter(wanted) =~= Seq::<T>::empty());
}

/// Where two names are `token`, there is no token.
proof fn lemma_two_tokens(pairs: Seq<(Seq<char>, Seq<char>)>, i: int, j: int)
    requires
        0 <= i < j < pairs.len(),
        pairs[i].0 == "token"@,
        pairs[j].0 == "token"@,
    ensures
        token_among(pairs) is None,
{
    let named = |pair: (Seq<char>, Seq<char>)| pair.0 == "token"@;
    let front = pairs.take(j);
    reveal(Seq::filter);
    assert(front[i] == pairs[i]);
    front.lemma_filter_contains(named, i);
    assert(front.filter(named).contains(front[i]));
    assert(front.filter(named).len() > 0);
    let both = pairs.take(j + 1);
    assert(both.drop_last() =~= front);
    assert(both.last() == pairs[j]);
    assert(both.filter(named).len() >= 2);
    assert(both.is_prefix_of(pairs));
    both.lemma_filter_monotone(pairs, named);
}

/// A text is the token of a query exactly where it is the value of the one name `token` in it,
/// whole.
proof fn lemma_query_token(pairs: Seq<(Seq<char>, Seq<char>)>, text: Seq<char>)
    ensures
        token_among(pairs) == Some(text) <==> exists|i: int|
            0 <= i < pairs.len() && (#[trigger] pairs[i]).1 == text && (forall|j: int|
                0 <= j < pairs.len() ==> (#[trigger] pairs[j].0 == "token"@ <==> j == i)),
{
    let named = |pair: (Seq<char>, Seq<char>)| pair.0 == "token"@;
    if token_among(pairs) is Some {
        if forall|i: int| 0 <= i < pairs.len() ==> !named(#[trigger] pairs[i]) {
            lemma_named_none(pairs, named);
        }
        let i = choose|i: int| 0 <= i < pairs.len() && named(#[trigger] pairs[i]);
        assert(0 <= i < pairs.len() && pairs[i].0 == "token"@);
        assert forall|j: int| 0 <= j < pairs.len() implies (#[trigger] pairs[j].0 == "token"@
            <==> j == i) by {
            if pairs[j].0 == "token"@ && j != i {
                if i < j {
                    lemma_two_tokens(pairs, i, j);
                } else {
                    lemma_two_tokens(pairs, j, i);
                }
            }
        }
        lemma_token_among(pairs, i);
        if token_among(pairs) == Some(text) {
            assert(pairs[i].1 == text);
        }
    }
    if exists|i: int|
        0 <= i < pairs.len() && (#[trigger] pairs[i]).1 == text && (forall|j: int|
            0 <= j < pairs.len() ==> (#[trigger] pairs[j].0 == "token"@ <==> j == i)) {
        let i = choose|i: int|
            0 <= i < pairs.len() && (#[trigger] pairs[i]).1 == text && (forall|j: int|
                0 <= j < pairs.len() ==> (#[trigger] pairs[j].0 == "token"@ <==> j == i));
        lemma_token_among(pairs, i);
    }
}

/// A text is the token among names and values exactly where it is the value of the one name
/// that is `token`, whole.
pub proof fn law_token_is_the_one_of_its_name(
    pairs: &Vec<(String, String)>,
    token: Option<String>,
    text: Seq<char>,
)
    requires
        call_ensures(get_token_from_pairs, (pairs,), token),
    ensures
        (token matches Some(token) && token@ == text) <==> exists|i: int|
            0 <= i < pairs@.len() && (#[trigger] pairs@[i]).1@ == text && (forall|j: int|
                0 <= j < pairs@.len() ==> (#[trigger] pairs@[j].0@ == "token"@ <==> j == i)),
{
    let all = pairs_view(pairs@);
    assert(all.len() == pairs@.len());
    assert forall|i: int| 0 <= i < all.len() implies #[trigger] all[i] == (
        pairs@[i].0@,
        pairs@[i].1@,
    ) by {}
    lemma_query_token(all, text);
    if exists|i: int|
        0 <= i < all.len() && (#[trigger] all[i]).1 == text && (forall|j: int|
            0 <= j < all.len() ==> (#[trigger] all[j].0 == "token"@ <==> j == i)) {
        let i = choose|i: int|
            0 <= i < all.len() && (#[trigger] all[i]).1 == text && (forall|j: int|
                0 <= j < all.len() ==> (#[trigger] all[j].0 == "token"@ <==> j == i));
        assert(pairs@[i].1@ == text);
        assert forall|j: int| 0 <= j < pairs@.len() implies (#[trigger] pairs@[j].0@ == "token"@
            <==> j == i) by {
            assert(all[j].0 == pairs@[j].0@);
        }
    }
    if exists|i: int|
        0 <= i < pairs@.len() && (#[trigger] pairs@[i]).1@ == text && (forall|j: int|
            0 <= j < pairs@.len() ==> (#[trigger] pairs@[j].0@ == "token"@ <==> j == i)) {
        let i = choose|i: int|
            0 <= i < pairs@.len() && (#[trigger] pairs@[i]).1@ == text && (forall|j: int|
                0 <= j < pairs@.len() ==> (#[trigger] pairs@[j].0@ == "token"@ <==> j == i));
        assert(all[i].1 == text);
        assert forall|j: int| 0 <= j < all.len() implies (#[trigger] all[j].0 == "token"@ <==> j
            == i) by {
            assert(pairs@[j].0@ == all[j].0);
        }
    }
}

/// The token of a query string is that among the names and values that are decoded from it;
/// a text that is no query has none.
pub proof fn law_query_token_is_the_one_decoded(
    query: &str,
    token: Option<String>,
    pairs: &Vec<(String, String)>,
    among: Option<String>,
)
    requires
        call_ensures(get_token_from_query, (query,), token),
        call_ensures(get_token_from_pairs, (pairs,), among),
    ensures
        decoded_query(query@) is None ==> token is None,
        decoded_query(query@) == Some(pairs_view(pairs@)) ==> match among {
            Some(among) => token matches Some(token) && token@ == among@,
            None => token is None,
        },
{
}

/// The token of a request is that of its header where the header has one, and else that of
/// its query string.
pub proof fn law_token_comes_from_header_or_query(
    headers: &HeaderMap<HeaderValue>,
    query: &str,
    in_header: Option<String>,
    in_query: Option<String>,
    token: Option<String>,
)
    requires
        call_ensures(get_token_from_headers, (headers,), in_header),
        call_ensures(get_token_from_query, (query,), in_query),
        call_ensures(get_token, (headers, query), token),
    ensures
        match (in_header, in_query) {
            (Some(text), _) => token matches Some(token) && token@ == text@,
            (None, Some(text)) => token matches Some(token) && token@ == text@,
            (None, None) => token is None,
        },
{
}

/// Whom the validator names is admitted, and whom it refuses is answered with the status 401.
pub proof fn law_validator_decides<U, X>(
    outcome: Result<U, X>,
    decision: Result<WsAuth<U>, u16>,
)
    requires
        call_ensures(WsAuth::<U>::decide::<X>, (outcome,), decision),
    ensures
        outcome matches Ok(user) ==> (decision matches Ok(auth) && auth.0 == user),
        outcome is Err ==> decision == Err::<WsAuth<U>, u16>(401),
{
}

/// A request with a token is decided by what the validator says of exactly that token, and
/// one without is answered with the status 401.
pub proof fn law_request_is_decided_by_its_token<U, S: TokenValidator<User = U>>(
    headers: &HeaderMap<HeaderValue>,
    query: &str,
    state: &S,
    token: Option<String>,
    decision: Result<WsAuth<U>, u16>,
)
    requires
        call_ensures(get_token, (headers, query), token),
        call_ensures(WsAuth::<U>::from_request_parts::<S>, (headers, query, state), decision),
    ensures
        token is None ==> decision == Err::<WsAuth<U>, u16>(401),
        token matches Some(text) ==> exists|handed: &str, outcome: Result<U, S::Error>|
            handed@ == text@ && #[trigger] call_ensures(
                S::validate_token,
                (state, handed),
                outcome,
            ) && match outcome {
                Ok(user) => decision matches Ok(auth) && auth.0 == user,
                Err(_) => decision == Err::<WsAuth<U>, u16>(401),
            },
{
}

} // verus!
