//! Namespaced tool names: how they are made and how they route.

use vstd::prelude::*;
use vstd::string::*;
use crate::text::{
    chars_of, contains, find, find_in, lemma_find_from, lemma_find_from_is, lemma_not_contained,
    matches_at, occurs_at, slice, string_of,
};

verus! {

/// The fixed first part of every namespaced tool name.
pub open spec fn prefix() -> Seq<char> {
    "external__"@
}

/// What stands between the server's name and the tool's.
pub open spec fn separator() -> Seq<char> {
    "__"@
}

/// The catalog name of `tool` on `server`.
pub open spec fn namespaced(server: Seq<char>, tool: Seq<char>) -> Seq<char> {
    prefix() + server + separator() + tool
}

/// The server and the tool that a catalog name routes to: what follows the
/// prefix, split at its first separator. `None` where the prefix or the
/// separator is missing.
pub open spec fn route_of(full: Seq<char>) -> Option<(Seq<char>, Seq<char>)> {
    if prefix().is_prefix_of(full) {
        let rest = full.subrange(prefix().len() as int, full.len() as int);
        match find(rest, separator()) {
            Some(at) => Some(
                (rest.subrange(0, at), rest.subrange(at + separator().len(), rest.len() as int)),
            ),
            None => None,
        }
    } else {
        None
    }
}

/// The catalog name of `tool` on `server`.
pub fn namespace(server: &str, tool: &str) -> (out: String)
    ensures
        out@ == namespaced(server@, tool@),
{
    let mut out = String::new();
    out.append("external__");
    out.append(server);
    out.append("__");
    out.append(tool);
    assert(out@ =~= namespaced(server@, tool@));
    out
}

/// Splits a catalog name into server and tool.
pub fn route(full: &str) -> (out: Option<(String, String)>)
    ensures
        match out {
            Some((server, tool)) => route_of(full@) == Some((server@, tool@)),
            None => route_of(full@) is None,
        },
{
    let chars = chars_of(full);
    let lead = chars_of("external__");
    let sep = chars_of("__");
    proof {
        reveal_strlit("external__");
        reveal_strlit("__");
    }
    if !occurs_at(&chars, 0, &lead) {
        return None;
    }
    let rest = slice(&chars, lead.len(), chars.len());
    match find_in(&rest, &sep, 0) {
        Some(at) => {
            proof {
                lemma_find_from(rest@, sep@, 0);
            }
            let server = string_of(&rest, 0, at);
            let tool = string_of(&rest, at + sep.len(), rest.len());
            Some((server, tool))
        },
        None => None,
    }
}

/// Routing a namespaced name gives back the server and the tool it was made
/// of, for every server name that neither holds the separator nor ends in an
/// underscore, and for every tool name.
pub proof fn lemma_route_namespaced(server: Seq<char>, tool: Seq<char>)
    requires
        !contains(server, separator()),
        server.len() == 0 || server.last() != '_',
    ensures
        route_of(namespaced(server, tool)) == Some((server, tool)),
{
    reveal_strlit("external__");
    reveal_strlit("__");
    let full = namespaced(server, tool);
    let sep = separator();
    assert(full.subrange(0, prefix().len() as int) =~= prefix());
    let rest = full.subrange(prefix().len() as int, full.len() as int);
    assert(rest =~= server + sep + tool);
    let at = server.len() as int;
    assert(rest.subrange(at, at + sep.len()) =~= sep);
    lemma_not_contained(server, sep);
    assert forall|j: int| 0 <= j < at implies !matches_at(rest, j, sep) by {
        if matches_at(rest, j, sep) {
            assert(rest.subrange(j, j + 2)[0] == '_');
            assert(rest.subrange(j, j + 2)[1] == '_');
            if j + 2 <= at {
                assert(server.subrange(j, j + 2) =~= sep);
                assert(matches_at(server, j, sep));
            } else {
                assert(server.last() == rest[j]);
            }
        }
    }
    lemma_find_from_is(rest, sep, 0, at);
    assert(rest.subrange(0, at) =~= server);
    assert(rest.subrange(at + sep.len(), rest.len() as int) =~= tool);
}

/// Two tools on servers whose names neither hold the separator nor end in an
/// underscore stand under one namespaced name only if they are the same tool
/// on the same server.
pub proof fn lemma_namespaced_distinct(
    server: Seq<char>,
    tool: Seq<char>,
    other_server: Seq<char>,
    other_tool: Seq<char>,
)
    requires
        !contains(server, separator()),
        server.len() == 0 || server.last() != '_',
        !contains(other_server, separator()),
        other_server.len() == 0 || other_server.last() != '_',
        namespaced(server, tool) == namespaced(other_server, other_tool),
    ensures
        server == other_server,
        tool == other_tool,
{
    lemma_route_namespaced(server, tool);
    lemma_route_namespaced(other_server, other_tool);
}

} // verus!
