//! Client configuration: where the database lives, which database to talk
//! to, and the request parameters every query carries. The HTTP transport
//! itself lives outside this crate; the client only assembles what a
//! transport must send, and judges what it brought back.

use vstd::prelude::*;

use core::marker::PhantomData;

use crate::error::Error;
use crate::text::{contains_str, has_substring, str_eq};

verus! {

/// Marker type for InfluxDB Version 1.
#[derive(Debug, Clone, Copy)]
pub struct InfluxVersion1;

/// Marker type for InfluxDB Version 2.
#[derive(Debug, Clone, Copy)]
pub struct InfluxVersion2;

/// Marker type for InfluxDB Version 3.
#[derive(Debug, Clone, Copy)]
pub struct InfluxVersion3;

/// The key/value views of a parameter list.
pub open spec fn params_view(params: Seq<(String, String)>) -> Seq<(Seq<char>, Seq<char>)> {
    params.map_values(|p: (String, String)| (p.0@, p.1@))
}

/// The value stored under the first occurrence of `key`, if any.
pub open spec fn lookup_param(ps: Seq<(Seq<char>, Seq<char>)>, key: Seq<char>) -> Option<
    Seq<char>,
>
    decreases ps.len(),
{
    if ps.len() == 0 {
        None
    } else if ps[0].0 == key {
        Some(ps[0].1)
    } else {
        lookup_param(ps.drop_first(), key)
    }
}

/// `ps` with the first entry under `key` replaced by `(key, value)`, or
/// with `(key, value)` appended when `key` is absent.
pub open spec fn upsert_param(
    ps: Seq<(Seq<char>, Seq<char>)>,
    key: Seq<char>,
    value: Seq<char>,
) -> Seq<(Seq<char>, Seq<char>)>
    decreases ps.len(),
{
    if ps.len() == 0 {
        seq![(key, value)]
    } else if ps[0].0 == key {
        seq![(key, value)] + ps.drop_first()
    } else {
        seq![ps[0]] + upsert_param(ps.drop_first(), key, value)
    }
}

proof fn lemma_lookup_at(ps: Seq<(Seq<char>, Seq<char>)>, key: Seq<char>, i: int)
    requires
        0 <= i < ps.len(),
        ps[i].0 == key,
        forall|k: int| 0 <= k < i ==> (#[trigger] ps[k]).0 != key,
    ensures
        lookup_param(ps, key) == Some(ps[i].1),
    decreases i,
{
    if i == 0 {
    } else {
        assert(ps.drop_first()[i - 1] == ps[i]);
        assert(forall|k: int| 0 <= k < i - 1 ==> (#[trigger] ps.drop_first()[k]).0 != key);
        lemma_lookup_at(ps.drop_first(), key, i - 1);
    }
}

proof fn lemma_lookup_absent(ps: Seq<(Seq<char>, Seq<char>)>, key: Seq<char>)
    requires
        forall|k: int| 0 <= k < ps.len() ==> (#[trigger] ps[k]).0 != key,
    ensures
        lookup_param(ps, key) is None,
    decreases ps.len(),
{
    if ps.len() == 0 {
    } else {
        assert(forall|k: int| 0 <= k < ps.drop_first().len() ==> (#[trigger] ps.drop_first()[k]).0
            != key);
        lemma_lookup_absent(ps.drop_first(), key);
    }
}

proof fn lemma_upsert_at(ps: Seq<(Seq<char>, Seq<char>)>, key: Seq<char>, value: Seq<char>, i: int)
    requires
        0 <= i < ps.len(),
        ps[i].0 == key,
        forall|k: int| 0 <= k < i ==> (#[trigger] ps[k]).0 != key,
    ensures
        upsert_param(ps, key, value) == ps.update(i, (key, value)),
    decreases i,
{
    if i == 0 {
        assert(upsert_param(ps, key, value) =~= ps.update(0, (key, value)));
    } else {
        assert(ps.drop_first()[i - 1] == ps[i]);
        assert(forall|k: int| 0 <= k < i - 1 ==> (#[trigger] ps.drop_first()[k]).0 != key);
        lemma_upsert_at(ps.drop_first(), key, value, i - 1);
        assert(upsert_param(ps, key, value) =~= ps.update(i, (key, value)));
    }
}

proof fn lemma_upsert_absent(ps: Seq<(Seq<char>, Seq<char>)>, key: Seq<char>, value: Seq<char>)
    requires
        forall|k: int| 0 <= k < ps.len() ==> (#[trigger] ps[k]).0 != key,
    ensures
        upsert_param(ps, key, value) == ps.push((key, value)),
    decreases ps.len(),
{
    if ps.len() == 0 {
        assert(upsert_param(ps, key, value) =~= ps.push((key, value)));
    } else {
        assert(forall|k: int| 0 <= k < ps.drop_first().len() ==> (#[trigger] ps.drop_first()[k]).0
            != key);
        lemma_upsert_absent(ps.drop_first(), key, value);
        assert(upsert_param(ps, key, value) =~= ps.push((key, value)));
    }
}

/// Replaces the first entry under `key`, or appends one.
fn set_param(params: &mut Vec<(String, String)>, key: &str, value: &str)
    ensures
        params_view(final (params)@) == upsert_param(params_view(old(params)@), key@, value@),
{
    let mut i: usize = 0;
    while i < params.len()
        invariant
            i <= params@.len(),
            forall|k: int| 0 <= k < i ==> (#[trigger] params_view(params@)[k]).0 != key@,
            params@ == old(params)@,
        decreases params@.len() - i,
    {
        if str_eq(params[i].0.as_str(), key) {
            params.remove(i);
            params.insert(i, (String::from_str(key), String::from_str(value)));
            proof {
                lemma_upsert_at(params_view(old(params)@), key@, value@, i as int);
                assert(params_view(params@) =~= params_view(old(params)@).update(
                    i as int,
                    (key@, value@),
                ));
            }
            return ;
        }
        i = i + 1;
    }
    params.push((String::from_str(key), String::from_str(value)));
    proof {
        lemma_upsert_absent(params_view(old(params)@), key@, value@);
        assert(params_view(params@) =~= params_view(old(params)@).push((key@, value@)));
    }
}

/// A configured client. `V` marks the database major version the caller
/// targets and carries no data; `H` is whatever handle the caller's
/// transport wants carried along, `()` when there is none.
#[derive(Debug)]
pub struct Client<V, H = ()> {
    pub url: String,
    pub parameters: Vec<(String, String)>,
    pub token: Option<String>,
    pub http_client: H,
    pub version: PhantomData<V>,
}

impl<V, H> Client<V, H> {
    /// The parameter list always carries the database name under `db`.
    pub open spec fn wf(self) -> bool {
        lookup_param(params_view(self.parameters@), "db"@) is Some
    }

    /// Replaces the carried transport handle.
    pub fn with_http_client(self, http_client: H) -> (r: Self)
        ensures
            r.url == self.url,
            r.parameters == self.parameters,
            r.token == self.token,
            r.http_client == http_client,
    {
        let mut client = self;
        client.http_client = http_client;
        client
    }
}

impl<V> Client<V> {
    /// Instantiates a new client for the database `database` served at
    /// `url` (for example `http://localhost:8086`).
    pub fn new(url: &str, database: &str) -> (r: Self)
        ensures
            r.url@ == url@,
            r.token is None,
            params_view(r.parameters@) == seq![("db"@, database@)],
            r.wf(),
    {
        let mut parameters: Vec<(String, String)> = Vec::new();
        parameters.push((String::from_str("db"), String::from_str(database)));
        proof {
            assert(params_view(parameters@) =~= seq![("db"@, database@)]);
        }
        Client {
            url: String::from_str(url),
            parameters,
            token: None,
            http_client: (),
            version: PhantomData,
        }
    }
}

impl<V, H> Client<V, H> {
    /// Adds username/password authentication: the parameters `u` and `p`
    /// on every request.
    pub fn with_auth(self, username: &str, password: &str) -> (r: Self)
        ensures
            r.url == self.url,
            r.token == self.token,
            params_view(r.parameters@) == upsert_param(
                upsert_param(params_view(self.parameters@), "u"@, username@),
                "p"@,
                password@,
            ),
    {
        let mut client = self;
        set_param(&mut client.parameters, "u", username);
        set_param(&mut client.parameters, "p", password);
        client
    }

    /// Adds an authorization token, for databases that want header-based
    /// authorization.
    pub fn with_token(self, token: &str) -> (r: Self)
        ensures
            r.url == self.url,
            r.parameters == self.parameters,
            r.token matches Some(t) && t@ == token@,
    {
        let mut client = self;
        client.token = Some(String::from_str(token));
        client
    }

    /// The name of the database the client is using.
    pub fn database_name(&self) -> (r: &str)
        requires
            self.wf(),
        ensures
            lookup_param(params_view(self.parameters@), "db"@) == Some(r@),
    {
        let mut i: usize = 0;
        while i < self.parameters.len()
            invariant
                i <= self.parameters@.len(),
                forall|k: int| 0 <= k < i ==> (#[trigger] params_view(self.parameters@)[k]).0
                    != "db"@,
            decreases self.parameters@.len() - i,
        {
            if str_eq(self.parameters[i].0.as_str(), "db") {
                proof {
                    lemma_lookup_at(params_view(self.parameters@), "db"@, i as int);
                }
                return self.parameters[i].1.as_str();
            }
            i = i + 1;
        }
        proof {
            lemma_lookup_absent(params_view(self.parameters@), "db"@);
            assert(false);
        }
        ""
    }

    /// The URL of the InfluxDB installation the client is using.
    pub fn database_url(&self) -> (r: &str)
        ensures
            r@ == self.url@,
    {
        self.url.as_str()
    }

    /// The `Authorization` header value a request must carry, when the
    /// client holds a token.
    pub fn auth_header(&self) -> (r: Option<String>)
        ensures
            match self.token {
                Some(t) => r matches Some(h) && h@ == "Token "@ + t@,
                None => r is None,
            },
    {
        match &self.token {
            Some(token) => {
                let mut header = String::from_str("Token ");
                header.append(token.as_str());
                Some(header)
            },
            None => None,
        }
    }
}

/// Judges an HTTP status code: 2xx passes, everything else is an
/// [`Error::ApiError`] carrying the code.
pub fn check_status(status: u16) -> (r: Result<(), Error>)
    ensures
        match r {
            Ok(_) => 200 <= status < 300,
            Err(e) => !(200 <= status < 300) && e == Error::ApiError(status),
        },
{
    if 200 <= status && status < 300 {
        Ok(())
    } else {
        Err(Error::ApiError(status))
    }
}

/// The route decision of the plain-text query path: a read whose text
/// mentions `SELECT` or `SHOW` (case-sensitive) travels as a `GET`, any
/// other read as a `POST`.
pub fn read_query_uses_get(read_query: &str) -> (r: bool)
    ensures
        r == (has_substring(read_query@, "SELECT"@) || has_substring(read_query@, "SHOW"@)),
{
    contains_str(read_query, "SELECT") || contains_str(read_query, "SHOW")
}

/// The low-cost error sniff of the plain-text query path: a response body
/// that mentions `"error"` or `"Error"` is reported as a database error
/// rather than handed to the caller.
pub fn check_database_error(body: &str) -> (r: Result<(), Error>)
    ensures
        match r {
            Ok(_) => !has_substring(body@, "\"error\""@) && !has_substring(body@, "\"Error\""@),
            Err(e) => {
                &&& has_substring(body@, "\"error\""@) || has_substring(body@, "\"Error\""@)
                &&& e matches Error::DatabaseError { error } && error@ == "influxdb error: "@
                    + body@
            },
        },
{
    if contains_str(body, "\"error\"") || contains_str(body, "\"Error\"") {
        let mut message = String::from_str("influxdb error: ");
        message.append(body);
        Err(Error::DatabaseError { error: message })
    } else {
        Ok(())
    }
}

} // verus!
