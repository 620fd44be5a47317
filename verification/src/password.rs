//! The small local service through which the configuration window saves and
//! reads instance passwords: which requests it accepts and what it answers.

use vstd::prelude::*;
use crate::path::last_component;
use crate::text::{str_eq, substring};
use vstd::string::*;

verus! {

/// Name of the header that carries the access token.
pub open spec fn auth_header() -> Seq<char> {
    "X-Auth-Token"@
}

/// The code of a character in lower case, for the ASCII letters.
pub open spec fn folded(c: char) -> int {
    if 65 <= (c as u32) && (c as u32) <= 90 {
        (c as u32) + 32
    } else {
        c as u32 as int
    }
}

/// Whether two header names are the same, ignoring the case of ASCII letters.
pub open spec fn same_header_name(a: Seq<char>, b: Seq<char>) -> bool {
    a.len() == b.len() && forall|i: int| 0 <= i < a.len() ==> #[trigger] folded(a[i]) == folded(b[i])
}

/// Whether a request carries the access token.
pub open spec fn authorized(headers: Seq<(String, String)>, token: Seq<char>) -> bool {
    exists|i: int|
        0 <= i < headers.len() && same_header_name(#[trigger] headers[i].0@, auth_header())
            && headers[i].1@ == token
}

/// Method of a request to the service.
#[derive(Debug, Clone, Copy, PartialEq, Eq, Structural)]
pub enum Method {
    Get,
    Post,
    Other,
}

/// What a request to the service asks.
#[derive(Debug)]
pub enum PasswordRequest {
    /// Refused (403): the token is missing or wrong.
    Forbidden,
    /// Save the password in the body for this instance.
    Save(String),
    /// Answer the password of this instance.
    Fetch(String),
    /// Nothing to do.
    Ignore,
}

fn fold(c: char) -> (r: u32)
    ensures
        r == folded(c),
{
    let x = c as u32;
    if 65 <= x && x <= 90 {
        x + 32
    } else {
        x
    }
}

fn same_name(a: &str, b: &str) -> (r: bool)
    ensures
        r == same_header_name(a@, b@),
{
    let n = a.unicode_len();
    if n != b.unicode_len() {
        return false;
    }
    let mut i: usize = 0;
    while i < n
        invariant
            n == a@.len(),
            n == b@.len(),
            i <= n,
            forall|j: int| 0 <= j < i ==> #[trigger] folded(a@[j]) == folded(b@[j]),
        decreases n - i,
    {
        if fold(a.get_char(i)) != fold(b.get_char(i)) {
            return false;
        }
        i = i + 1;
    }
    true
}

/// Whether a request carries the access token: see [`authorized`].
pub fn is_authorized(headers: &Vec<(String, String)>, token: &str) -> (r: bool)
    ensures
        r == authorized(headers@, token@),
{
    let name = "X-Auth-Token";
    let mut i: usize = 0;
    while i < headers.len()
        invariant
            name@ == auth_header(),
            i <= headers@.len(),
            forall|j: int|
                0 <= j < i ==> !(same_header_name(#[trigger] headers@[j].0@, auth_header())
                    && headers@[j].1@ == token@),
        decreases headers@.len() - i,
    {
        let (field, value) = &headers[i];
        if same_name(field.as_str(), name) && str_eq(value.as_str(), token) {
            assert(same_header_name(headers@[i as int].0@, auth_header()) && headers@[i as int].1@
                == token@);
            return true;
        }
        i = i + 1;
    }
    false
}

/// The instance a request is about: the last segment of its address.
pub fn instance_name(url: &str) -> (r: String)
    ensures
        r@ == last_component(url@),
{
    let n = url.unicode_len();
    let mut i = n;
    while i > 0
        invariant
            i <= n,
            n == url@.len(),
            forall|j: int| i <= j < n ==> url@[j] != '/',
        decreases i,
    {
        if url.get_char(i - 1) == '/' {
            proof {
                crate::path::lemma_last_separator(url@, i - 1);
            }
            return substring(url, i, n);
        }
        i = i - 1;
    }
    proof {
        crate::path::lemma_last_separator(url@, -1);
    }
    substring(url, 0, n)
}

/// What a request asks: refused without the token, else a save for a POST
/// and a read for a GET about the instance named by the last segment of the
/// address.
pub fn route_password_request(
    headers: &Vec<(String, String)>,
    token: &str,
    url: &str,
    method: Method,
) -> (r: PasswordRequest)
    ensures
        !authorized(headers@, token@) ==> r is Forbidden,
        authorized(headers@, token@) && method == Method::Post ==> (r matches PasswordRequest::Save(
            name,
        ) && name@ == last_component(url@)),
        authorized(headers@, token@) && method == Method::Get ==> (r matches PasswordRequest::Fetch(
            name,
        ) && name@ == last_component(url@)),
        authorized(headers@, token@) && method == Method::Other ==> r is Ignore,
{
    if !is_authorized(headers, token) {
        return PasswordRequest::Forbidden;
    }
    match method {
        Method::Post => PasswordRequest::Save(instance_name(url)),
        Method::Get => PasswordRequest::Fetch(instance_name(url)),
        Method::Other => PasswordRequest::Ignore,
    }
}

/// The status answered to a save: 201 once saved, 500 when the body could
/// not be read or the password not saved.
pub fn save_status(body_read: bool, saved: bool) -> (r: u16)
    ensures
        r == (if body_read && saved {
            201u16
        } else {
            500u16
        }),
{
    if body_read && saved {
        201
    } else {
        500
    }
}

} // verus!
