//! Read query builder returned by [`crate::query::raw_read_query`].

use vstd::prelude::*;

use crate::error::Error;
use crate::query::{Query, QueryType, ValidQuery};
use crate::text::{joined, lemma_joined_snoc, push_char};

verus! {

/// One or more raw query strings, joined with `;` when built. No escaping
/// is applied: each string is assumed to be valid as written.
#[derive(Debug, Clone)]
pub struct ReadQuery {
    pub queries: Vec<String>,
}

/// The character sequences of the held query strings.
pub open spec fn query_views(queries: Seq<String>) -> Seq<Seq<char>> {
    queries.map_values(|s: String| s@)
}

impl ReadQuery {
    /// Creates a new [`ReadQuery`] holding the one given query.
    pub fn new(query: &str) -> (r: Self)
        ensures
            r.queries@.len() == 1,
            r.queries@[0]@ == query@,
    {
        let mut queries: Vec<String> = Vec::new();
        queries.push(String::from_str(query));
        ReadQuery { queries }
    }

    /// Adds one more query to run in the same request.
    pub fn add_query(self, query: &str) -> (r: Self)
        ensures
            r.queries@.len() == self.queries@.len() + 1,
            r.queries@.drop_last() == self.queries@,
            r.queries@.last()@ == query@,
    {
        let mut queries = self.queries;
        queries.push(String::from_str(query));
        proof {
            assert(queries@.drop_last() =~= self.queries@);
        }
        ReadQuery { queries }
    }
}

impl Query for ReadQuery {
    /// Joins the held queries with `;`; a read query always builds.
    fn build(&self) -> (r: Result<ValidQuery, Error>)
        ensures
            r matches Ok(v) && v@ == joined(query_views(self.queries@), ';'),
    {
        let mut out = String::new();
        let mut i: usize = 0;
        while i < self.queries.len()
            invariant
                i <= self.queries@.len(),
                out@ == joined(query_views(self.queries@.take(i as int)), ';'),
            decreases self.queries@.len() - i,
        {
            if i > 0 {
                push_char(&mut out, ';');
            }
            out.append(self.queries[i].as_str());
            proof {
                lemma_joined_snoc(
                    query_views(self.queries@.take(i as int)),
                    self.queries@[i as int]@,
                    ';',
                );
                assert(query_views(self.queries@.take(i + 1)) =~= query_views(
                    self.queries@.take(i as int),
                ).push(self.queries@[i as int]@));
                assert(out@ =~= joined(query_views(self.queries@.take(i + 1)), ';'));
            }
            i = i + 1;
        }
        proof {
            assert(self.queries@.take(self.queries@.len() as int) =~= self.queries@);
        }
        Ok(ValidQuery::from_text(out))
    }

    fn build_with_opts(&self, use_v2: bool) -> (r: Result<ValidQuery, Error>)
        ensures
            r matches Ok(v) && v@ == joined(query_views(self.queries@), ';'),
    {
        self.build()
    }

    fn get_type(&self) -> (r: QueryType)
        ensures
            r == QueryType::ReadQuery,
    {
        QueryType::ReadQuery
    }
}

} // verus!
