//! The NRQL text of each command and the HTTP request that carries it.
use vstd::prelude::*;
use crate::connection::Connection;

verus! {

/// A command of the client, with its arguments.
#[derive(Debug)]
pub enum Command {
    /// Runs the given NRQL text as it is.
    Run(String),
    /// Lists the event types of the account.
    Types,
    /// Lists the attributes of an event type.
    Attrs(String),
    /// Lists the values of an attribute of an event type, optionally those
    /// that start with a prefix: (event type, attribute, prefix).
    Complete(String, String, Option<String>),
}

pub open spec fn attrs_query_of(event_type: Seq<char>) -> Seq<char> {
    "select keyset() from "@ + event_type + " since 1 week ago"@
}

pub open spec fn complete_query_of(event_type: Seq<char>, attr: Seq<char>, partial: Option<Seq<char>>) -> Seq<char> {
    "select uniques("@ + attr + ") from "@ + event_type + match partial {
        Some(p) => " where "@ + attr + " like '"@ + p + "%'"@,
        None => seq![],
    } + " since 1 week ago"@
}

/// The NRQL text that a command sends.
pub open spec fn query_of(cmd: Command) -> Seq<char> {
    match cmd {
        Command::Run(q) => q@,
        Command::Types => "show event types"@,
        Command::Attrs(t) => attrs_query_of(t@),
        Command::Complete(t, a, p) => complete_query_of(
            t@,
            a@,
            match p {
                Some(s) => Some(s@),
                None => None,
            },
        ),
    }
}

/// What `application/x-www-form-urlencoded` serialisation makes of a text.
pub uninterp spec fn form_encoded(s: Seq<char>) -> Seq<char>;

/// Relies on url::form_urlencoded::byte_serialize over the text's UTF-8
/// bytes: the encoding depends on the text alone, and an empty text gives an
/// empty encoding.
#[verifier::external_body]
fn form_encode(s: &str) -> (r: String)
    ensures
        r@ == form_encoded(s@),
        s@.len() == 0 ==> r@.len() == 0,
{
    url::form_urlencoded::byte_serialize(s.as_bytes()).collect()
}

/// The query listing the event types.
pub fn types_query() -> (r: String)
    ensures
        r@ == "show event types"@,
{
    String::from_str("show event types")
}

/// The query listing the attributes of an event type.
pub fn attrs_query(event_type: &str) -> (r: String)
    ensures
        r@ == attrs_query_of(event_type@),
{
    let mut q = String::from_str("select keyset() from ");
    q.append(event_type);
    q.append(" since 1 week ago");
    q
}

/// The query listing the values of an attribute, restricted to those that
/// start with `partial` where it is given.
pub fn complete_query(event_type: &str, attr: &str, partial: Option<&str>) -> (r: String)
    ensures
        r@ == complete_query_of(
            event_type@,
            attr@,
            match partial {
                Some(p) => Some(p@),
                None => None,
            },
        ),
{
    let mut q = String::from_str("select uniques(");
    q.append(attr);
    q.append(") from ");
    q.append(event_type);
    let ghost head = q@;
    match partial {
        Some(p) => {
            q.append(" where ");
            q.append(attr);
            q.append(" like '");
            q.append(p);
            q.append("%'");
            assert(q@ =~= head + (" where "@ + attr@ + " like '"@ + p@ + "%'"@));
        },
        None => {
            assert(q@ =~= head + Seq::<char>::empty());
        },
    }
    q.append(" since 1 week ago");
    q
}

impl Command {
    /// The NRQL text this command sends.
    pub fn query(&self) -> (r: String)
        ensures
            r@ == query_of(*self),
    {
        match self {
            Command::Run(q) => q.clone(),
            Command::Types => types_query(),
            Command::Attrs(t) => attrs_query(t.as_str()),
            Command::Complete(t, a, p) => {
                let prefix = match p {
                    Some(s) => Some(s.as_str()),
                    None => None,
                };
                complete_query(t.as_str(), a.as_str(), prefix)
            },
        }
    }
}

/// The request URL of a query: `<base>v1/accounts/<id>/query?nrql=<encoded>`.
pub open spec fn request_url_of(conn: Connection, query: Seq<char>) -> Seq<char> {
    conn.url@ + "v1/accounts/"@ + conn.account_id@ + "/query?nrql="@ + form_encoded(query)
}

/// Builds the request URL of a query over a connection.
pub fn request_url(conn: &Connection, query: &str) -> (r: String)
    ensures
        r@ == request_url_of(*conn, query@),
{
    let encoded = form_encode(query);
    let mut u = conn.url.clone();
    u.append("v1/accounts/");
    u.append(conn.account_id.as_str());
    u.append("/query?nrql=");
    u.append(encoded.as_str());
    u
}

/// The headers of a query request: JSON is accepted, and the API key
/// authenticates it.
pub fn request_headers(conn: &Connection) -> (r: Vec<(String, String)>)
    ensures
        r@.len() == 2,
        r@[0].0@ == "Accept"@,
        r@[0].1@ == "application/json"@,
        r@[1].0@ == "X-Query-Key"@,
        r@[1].1@ == conn.api_key@,
{
    let mut h: Vec<(String, String)> = Vec::new();
    h.push((String::from_str("Accept"), String::from_str("application/json")));
    h.push((String::from_str("X-Query-Key"), conn.api_key.clone()));
    h
}

} // verus!
