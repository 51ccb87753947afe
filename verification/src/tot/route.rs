//! Where a connection leads.
use vstd::prelude::*;
use crate::text;

verus! {

/// Where a browser's connection leads.
#[derive(Debug, Clone, Copy, PartialEq, Eq, Structural)]
pub enum Route {
    /// To the inbox.
    Intake,
    /// To the node with an index.
    Nabla(usize),
    /// For development: to the mail server with an index.
    Fatmama(usize),
}

/// The index that stands behind a prefix in a path.
pub open spec fn index_after(path: Seq<char>, prefix: Seq<char>) -> Option<nat> {
    if text::starts_with(path, prefix) {
        text::numeral(path.skip(prefix.len() as int), usize::MAX as nat)
    } else {
        None
    }
}

/// Where a path leads.
pub open spec fn route_of(path: Seq<char>) -> Option<Route> {
    if path == "/intake"@ {
        Some(Route::Intake)
    } else {
        match index_after(path, "/nabla/"@) {
            Some(n) => Some(Route::Nabla(n as usize)),
            None => None,
        }
    }
}

/// Where a path leads in development.
pub open spec fn dev_route_of(path: Seq<char>) -> Option<Route> {
    if route_of(path) is Some || text::starts_with(path, "/nabla/"@) {
        route_of(path)
    } else {
        match index_after(path, "/fatmama/"@) {
            Some(n) => Some(Route::Fatmama(n as usize)),
            None => None,
        }
    }
}

fn find_index(path: &str, prefix: &str) -> (r: Option<usize>)
    ensures
        match index_after(path@, prefix@) {
            Some(n) => r == Some(n as usize) && n <= usize::MAX,
            None => r is None,
        },
{
    let v = text::chars_of(path);
    let p = text::chars_of(prefix);
    assert(v@.skip(0) == v@);
    if !text::has_at(&v, 0, &p) {
        return None;
    }
    let len: usize = v.len();
    assert(v@.subrange(p@.len() as int, len as int) == v@.skip(p@.len() as int));
    match text::read_numeral(&v, p.len(), len, usize::MAX as u64) {
        Some(n) => Some(n as usize),
        None => None,
    }
}

impl Route {
    /// Where a path leads.
    pub fn parse(path: &str) -> (r: Option<Route>)
        ensures
            r == route_of(path@),
    {
        if text::same_text(path, "/intake") {
            return Some(Route::Intake);
        }
        match find_index(path, "/nabla/") {
            Some(n) => Some(Route::Nabla(n)),
            None => None,
        }
    }

    /// Where a path leads in development.
    pub fn parse_dev(path: &str) -> (r: Option<Route>)
        ensures
            r == dev_route_of(path@),
    {
        let plain = Route::parse(path);
        if plain.is_some() || text::has_prefix(path, "/nabla/") {
            return plain;
        }
        match find_index(path, "/fatmama/") {
            Some(n) => Some(Route::Fatmama(n)),
            None => None,
        }
    }
}

/// Outside development no path leads to a mail server, and in development the other paths lead
/// where they lead otherwise.
pub proof fn law_mail_servers_are_for_development(path: Seq<char>)
    ensures
        !(route_of(path) matches Some(Route::Fatmama(_))),
        route_of(path) is Some ==> dev_route_of(path) == route_of(path),
{
}


/// A path leads to the inbox, or by a number behind a prefix to the node with that number; in
/// development, by another prefix to a mail server. What leads nowhere is refused.
pub proof fn law_paths_lead_by_their_numbers(n: usize, path: Seq<char>)
    ensures
        route_of("/intake"@) == Some(Route::Intake),
        route_of("/nabla/"@ + text::dec(n as nat)) == Some(Route::Nabla(n)),
        dev_route_of("/nabla/"@ + text::dec(n as nat)) == Some(Route::Nabla(n)),
        dev_route_of("/fatmama/"@ + text::dec(n as nat)) == Some(Route::Fatmama(n)),
        route_of("/fatmama/"@ + text::dec(n as nat)) is None,
        route_of(path) == Some(Route::Intake) <==> path == "/intake"@,
        dev_route_of(path) == Some(Route::Intake) <==> path == "/intake"@,
        route_of(path) == Some(Route::Nabla(n)) ==> text::starts_with(path, "/nabla/"@) && text::numeral(
            path.skip(7),
            usize::MAX as nat,
        ) == Some(n as nat),
        dev_route_of(path) == Some(Route::Fatmama(n)) ==> text::starts_with(path, "/fatmama/"@) && text::numeral(
            path.skip(9),
            usize::MAX as nat,
        ) == Some(n as nat),
{
    reveal_strlit("/intake");
    reveal_strlit("/nabla/");
    reveal_strlit("/fatmama/");
    let d = text::dec(n as nat);
    let to = "/nabla/"@ + d;
    let mail = "/fatmama/"@ + d;
    text::lemma_put_together(Seq::empty(), "/nabla/"@, d);
    text::lemma_put_together(Seq::empty(), "/fatmama/"@, d);
    assert(to.skip(7) =~= d);
    assert(mail.skip(9) =~= d);
    text::law_numerals_read_back(n as nat, usize::MAX as nat, d);
    assert(to[1] == 'n' && mail[1] == 'f' && "/intake"@[1] == 'i' && "/nabla/"@[1] == 'n');
    if text::starts_with(mail, "/nabla/"@) {
        assert(mail.take(7)[1] == 'n');
    }
    if text::starts_with("/intake"@, "/nabla/"@) {
        assert("/intake"@.take(7)[1] == 'n');
    }
}

} // verus!
