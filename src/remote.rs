//! The plain-value side of the remote reading-list service: credentials, the
//! authorisation URL, request bodies and the numeric fields of its responses.
use vstd::prelude::*;
use vstd::string::*;

use crate::text::{decimal, write_decimal};

verus! {

/// The application key and the user's access token.
#[derive(Clone, Debug)]
pub struct Credentials {
    pub consumer_key: String,
    pub access_token: String,
}

/// A request token of the authorisation flow.
#[derive(Clone, Debug)]
pub struct PocketCode {
    pub code: String,
}

/// The access token granted to a user.
#[derive(Clone, Debug)]
pub struct PocketUser {
    pub access_token: String,
    pub username: String,
}

/// An image of an item, as the service lists it.
#[derive(Clone, Debug, Default)]
pub struct Image {
    pub image_id: String,
    pub src: String,
    pub item_id: String,
    pub width: String,
    pub height: String,
    pub caption: String,
    pub credit: String,
}

impl Credentials {
    /// Credentials from the lines of a credentials file: the key on the first
    /// line, the token on the second. `None` when there are fewer lines.
    pub fn from_lines(lines: &Vec<String>) -> (r: Option<Credentials>)
        ensures
            r is Some <==> lines@.len() >= 2,
            r matches Some(c) ==> c.consumer_key@ == lines@[0]@ && c.access_token@ == lines@[1]@,
    {
        if lines.len() < 2 {
            None
        } else {
            Some(Credentials { consumer_key: lines[0].clone(), access_token: lines[1].clone() })
        }
    }
}

/// Where the user authorises the application.
pub open spec fn user_auth_base() -> Seq<char> {
    "https://getpocket.com/auth/authorize"@
}

/// The page where the user approves `token`, coming back to `redirect`.
pub open spec fn auth_url(token: Seq<char>, redirect: Seq<char>) -> Seq<char> {
    user_auth_base() + "?request_token="@ + token + "&redirect_uri="@ + redirect
}

/// The authorisation page for a request token; `None` before one was obtained.
pub fn browser_auth_url(request_token: &Option<PocketCode>, redirect_uri: &str) -> (r: Option<String>)
    ensures
        match request_token {
            Some(t) => r matches Some(u) && u@ == auth_url(t.code@, redirect_uri@),
            None => r is None,
        },
{
    match request_token {
        Some(t) => {
            let mut u = String::from_str("https://getpocket.com/auth/authorize");
            u.append("?request_token=");
            u.append(t.code.as_str());
            u.append("&redirect_uri=");
            u.append(redirect_uri);
            Some(u)
        },
        None => None,
    }
}

/// The action archiving item `id`.
pub open spec fn archive_action(id: u64) -> Seq<char> {
    "{\"action\": \"archive\", \"item_id\": "@ + decimal(id as nat) + "}"@
}

/// The actions archiving each item of `ids`, separated by commas.
pub open spec fn joined_actions(ids: Seq<u64>) -> Seq<char>
    decreases ids.len(),
{
    if ids.len() == 0 {
        Seq::empty()
    } else if ids.len() == 1 {
        archive_action(ids[0])
    } else {
        joined_actions(ids.drop_last()) + ","@ + archive_action(ids.last())
    }
}

/// The JSON array of actions that archives every item of `ids`.
pub fn archive_actions(ids: &Vec<u64>) -> (r: String)
    ensures
        r@ == "["@ + joined_actions(ids@) + "]"@,
{
    let mut out = String::from_str("[");
    let mut i: usize = 0;
    while i < ids.len()
        invariant
            i <= ids@.len(),
            out@ == "["@ + joined_actions(ids@.subrange(0, i as int)),
        decreases ids@.len() - i,
    {
        let ghost pre = ids@.subrange(0, i + 1);
        assert(pre.drop_last() =~= ids@.subrange(0, i as int));
        if i > 0 {
            out.append(",");
        }
        out.append("{\"action\": \"archive\", \"item_id\": ");
        write_decimal(&mut out, ids[i] as u128);
        out.append("}");
        proof {
            if i == 0 {
                assert(pre.len() == 1);
            }
        }
        assert(out@ =~= "["@ + joined_actions(pre));
        i = i + 1;
    }
    assert(ids@.subrange(0, ids@.len() as int) =~= ids@);
    out.append("]");
    out
}

/// The status by which the service accepts a request.
pub const STATUS_OK: u16 = 200;

/// Whether the service accepted a request with this status.
pub fn accepted(status: u16) -> (r: bool)
    ensures
        r == (status == STATUS_OK),
{
    status == STATUS_OK
}

/// Whether `c` is a decimal digit.
pub open spec fn is_digit(c: char) -> bool {
    '0' <= c && c <= '9'
}

/// The value of a string of decimal digits.
pub open spec fn digits_value(s: Seq<char>) -> nat
    decreases s.len(),
{
    if s.len() == 0 {
        0
    } else {
        digits_value(s.drop_last()) * 10 + (s.last() as nat - '0' as nat) as nat
    }
}

/// The digits of a number field, after an optional `+`.
pub open spec fn number_digits(s: Seq<char>) -> Seq<char> {
    if s.len() > 0 && s[0] == '+' {
        s.drop_first()
    } else {
        s
    }
}

/// `s` is a well-formed number: an optional `+`, then at least one digit.
pub open spec fn well_formed_number(s: Seq<char>) -> bool {
    let d = number_digits(s);
    d.len() > 0 && forall|i: int| 0 <= i < d.len() ==> is_digit(#[trigger] d[i])
}

proof fn lemma_digits_grow(s: Seq<char>, j: int)
    requires
        0 <= j <= s.len(),
        forall|i: int| 0 <= i < s.len() ==> is_digit(#[trigger] s[i]),
    ensures
        digits_value(s.subrange(0, j)) <= digits_value(s),
    decreases s.len() - j,
{
    if j < s.len() {
        let t = s.subrange(0, j + 1);
        assert(t.drop_last() =~= s.subrange(0, j));
        assert(is_digit(s[j]));
        lemma_digits_grow(s, j + 1);
    } else {
        assert(s.subrange(0, j) =~= s);
    }
}

/// Reads a numeric field that the service sends as a string: an empty string
/// means no value; otherwise it must be a well-formed number no larger than
/// `max`.
pub fn parse_number_field(s: &str, max: u64) -> (r: Result<Option<u64>, ()>)
    ensures
        s@.len() == 0 ==> r == Ok::<Option<u64>, ()>(None),
        s@.len() > 0 && well_formed_number(s@) && digits_value(number_digits(s@)) <= max ==> r
            == Ok::<Option<u64>, ()>(Some(digits_value(number_digits(s@)) as u64)),
        s@.len() > 0 && !(well_formed_number(s@) && digits_value(number_digits(s@)) <= max) ==> r
            is Err,
{
    let n = s.unicode_len();
    if n == 0 {
        return Ok(None);
    }
    let start: usize = if s.get_char(0) == '+' {
        1
    } else {
        0
    };
    let ghost d = number_digits(s@);
    assert(d =~= s@.subrange(start as int, n as int));
    if start == n {
        return Err(());
    }
    let mut v: u64 = 0;
    let mut i: usize = start;
    while i < n
        invariant
            n == s@.len(),
            start <= i <= n,
            d == s@.subrange(start as int, n as int),
            d == number_digits(s@),
            forall|k: int| 0 <= k < i - start ==> is_digit(#[trigger] d[k]),
            v as nat == digits_value(d.subrange(0, i - start)),
            v <= max,
        decreases n - i,
    {
        let c = s.get_char(i);
        assert(c == d[i - start]);
        if !('0' <= c && c <= '9') {
            assert(!is_digit(d[i - start]));
            return Err(());
        }
        let digit: u64 = (c as u32 - '0' as u32) as u64;
        let ghost pre = d.subrange(0, i - start + 1);
        assert(pre.drop_last() =~= d.subrange(0, i - start));
        assert(digits_value(pre) == v * 10 + digit);
        if digit > max || v > (max - digit) / 10 {
            proof {
                if digit <= max {
                    assert(v * 10 + digit > max) by (nonlinear_arith)
                        requires
                            v > (max - digit) / 10,
                            digit <= max,
                    ;
                }
                if forall|k: int| 0 <= k < d.len() ==> is_digit(#[trigger] d[k]) {
                    lemma_digits_grow(d, i - start + 1);
                }
            }
            return Err(());
        }
        v = v * 10 + digit;
        i = i + 1;
    }
    assert(d.subrange(0, n - start) =~= d);
    Ok(Some(v))
}

} // verus!
