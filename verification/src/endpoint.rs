//! Where an endpoint points: at a database in memory or at a database file.

use crate::text::{same_text, strip_prefix};
use vstd::prelude::*;

verus! {

/// The database that a sink writes to when none is configured.
pub fn default_database() -> (name: String)
    ensures
        name@ == "main"@,
{
    "main".to_string()
}

/// The database that an endpoint names.
#[derive(Debug, Clone, Copy)]
pub enum DuckdbPath<'a> {
    /// A database that lives in memory only.
    Memory,
    /// The database in the file at this path.
    File(&'a str),
}

/// What a [`DuckdbPath`] names, as a mathematical value.
pub enum DatabaseLocation {
    Memory,
    File(Seq<char>),
}

impl<'a> View for DuckdbPath<'a> {
    type V = DatabaseLocation;

    open spec fn view(&self) -> DatabaseLocation {
        match *self {
            DuckdbPath::Memory => DatabaseLocation::Memory,
            DuckdbPath::File(path) => DatabaseLocation::File(path@),
        }
    }
}

/// The scheme with which an endpoint may start.
pub open spec fn scheme() -> Seq<char> {
    "duckdb://"@
}

/// The endpoints that name a database in memory. With the scheme the location
/// may be left out, and it may be written with or without a leading slash.
pub open spec fn names_memory(endpoint: Seq<char>) -> bool {
    ||| endpoint == ":memory:"@
    ||| endpoint == scheme()
    ||| endpoint == scheme() + ":memory:"@
    ||| endpoint == scheme() + "/:memory:"@
}

/// What an endpoint names: memory, or else the file whose path is the endpoint
/// without its scheme.
pub open spec fn location(endpoint: Seq<char>) -> DatabaseLocation {
    if names_memory(endpoint) {
        DatabaseLocation::Memory
    } else if scheme().is_prefix_of(endpoint) {
        DatabaseLocation::File(endpoint.skip(scheme().len() as int))
    } else {
        DatabaseLocation::File(endpoint)
    }
}

/// Stripping the scheme off an endpoint that was written with it gives back
/// what was written after it.
proof fn lemma_scheme_strips(rest: Seq<char>)
    ensures
        scheme().is_prefix_of(scheme() + rest),
        (scheme() + rest).skip(scheme().len() as int) == rest,
{
    assert((scheme() + rest).take(scheme().len() as int) =~= scheme());
    assert((scheme() + rest).skip(scheme().len() as int) =~= rest);
}

/// Reads an endpoint.
pub fn duckdb_path(endpoint: &str) -> (path: DuckdbPath<'_>)
    ensures
        path@ == location(endpoint@),
{
    proof {
        reveal_strlit(":memory:");
        reveal_strlit("/:memory:");
        reveal_strlit("duckdb://");
        reveal_strlit("duckdb:///:memory:");
        assert("duckdb:///:memory:"@ =~= scheme() + "/:memory:"@);
        assert(scheme() =~= scheme() + Seq::<char>::empty());
        lemma_scheme_strips(Seq::empty());
        lemma_scheme_strips(":memory:"@);
        lemma_scheme_strips("/:memory:"@);
    }
    if same_text(endpoint, ":memory:") || same_text(endpoint, "duckdb:///:memory:") {
        return DuckdbPath::Memory;
    }
    if let Some(rest) = strip_prefix(endpoint, "duckdb://") {
        proof {
            lemma_scheme_strips(rest@);
            assert(endpoint@[0] != ":memory:"@[0]);
            assert(rest@.len() == 0 ==> rest@ =~= Seq::empty());
        }
        let path = if rest.is_empty() {
            ":memory:"
        } else {
            rest
        };
        if same_text(path, "/:memory:") || same_text(path, ":memory:") {
            DuckdbPath::Memory
        } else {
            DuckdbPath::File(path)
        }
    } else {
        DuckdbPath::File(endpoint)
    }
}

/// A path written after the scheme is read back unchanged, unless it is empty
/// or one of the two names of memory.
pub proof fn law_path_after_scheme_is_read_back(path: Seq<char>)
    requires
        path.len() > 0,
        path != ":memory:"@,
        path != "/:memory:"@,
    ensures
        location(scheme() + path) == DatabaseLocation::File(path),
{
    reveal_strlit("duckdb://");
    reveal_strlit(":memory:");
    lemma_scheme_strips(path);
    lemma_scheme_strips(":memory:"@);
    lemma_scheme_strips("/:memory:"@);
    assert((scheme() + path)[0] != ":memory:"@[0]);
}

/// The scheme is optional: an endpoint names the same database with and without
/// it. Left out are the empty endpoint and `/:memory:`, which name memory only
/// after the scheme, and endpoints that already start with the scheme.
pub proof fn law_scheme_is_optional(endpoint: Seq<char>)
    requires
        endpoint.len() > 0,
        endpoint != "/:memory:"@,
        !scheme().is_prefix_of(endpoint),
    ensures
        location(scheme() + endpoint) == location(endpoint),
{
    lemma_scheme_strips(Seq::empty());
    lemma_scheme_strips(":memory:"@);
    lemma_scheme_strips("/:memory:"@);
    assert(scheme() =~= scheme() + Seq::<char>::empty());
    if endpoint != ":memory:"@ {
        law_path_after_scheme_is_read_back(endpoint);
    }
}

/// An endpoint names a file only by its path or by the scheme and its path.
pub proof fn law_file_endpoint_holds_its_path(endpoint: Seq<char>, path: Seq<char>)
    requires
        location(endpoint) == DatabaseLocation::File(path),
    ensures
        endpoint == path || endpoint == scheme() + path,
{
    if scheme().is_prefix_of(endpoint) {
        assert(endpoint =~= scheme() + endpoint.skip(scheme().len() as int));
    }
}

/// [`duckdb_path`] answers memory for four endpoints and for no other.
pub proof fn law_memory_has_four_names<'a>(endpoint: &'a str, path: DuckdbPath<'a>)
    requires
        call_ensures(duckdb_path, (endpoint,), path),
    ensures
        path is Memory <==> {
            ||| endpoint@ == ":memory:"@
            ||| endpoint@ == "duckdb://"@
            ||| endpoint@ == "duckdb://:memory:"@
            ||| endpoint@ == "duckdb:///:memory:"@
        },
{
    reveal_strlit(":memory:");
    reveal_strlit("/:memory:");
    reveal_strlit("duckdb://");
    reveal_strlit("duckdb://:memory:");
    reveal_strlit("duckdb:///:memory:");
    assert("duckdb://:memory:"@ =~= "duckdb://"@ + ":memory:"@);
    assert("duckdb:///:memory:"@ =~= "duckdb://"@ + "/:memory:"@);
}

/// Where [`duckdb_path`] answers a file, its path and the endpoint are the same
/// text, but for the scheme if the endpoint starts with it.
pub proof fn law_file_is_the_endpoint_without_its_scheme<'a>(
    endpoint: &'a str,
    path: DuckdbPath<'a>,
)
    requires
        call_ensures(duckdb_path, (endpoint,), path),
    ensures
        path matches DuckdbPath::File(file) ==> if "duckdb://"@.is_prefix_of(endpoint@) {
            endpoint@ == "duckdb://"@ + file@
        } else {
            endpoint@ == file@
        },
{
    if "duckdb://"@.is_prefix_of(endpoint@) {
        let length = "duckdb://"@.len() as int;
        assert(endpoint@ =~= "duckdb://"@ + endpoint@.skip(length));
    }
}

/// Every call of [`default_database`] gives the same four letters.
pub proof fn law_default_database_is_main(name: String)
    requires
        call_ensures(default_database, (), name),
    ensures
        name@ == seq!['m', 'a', 'i', 'n'],
{
    reveal_strlit("main");
    assert(name@ =~= seq!['m', 'a', 'i', 'n']);
}

} // verus!
