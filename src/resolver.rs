//! Finding the theme that an identifier names, among installed themes first
//! and catalog entries after.

use vstd::prelude::*;
use crate::identity::{
    Theme, ThemeQuery, compose_id, lemma_identifier_split_unique, opt_view, parse_theme_id,
    well_split,
};
use crate::installed::{InstalledTheme, OnlineTheme, ThemeError, ThemeVariant};

verus! {

/// A theme answers the parts of an identifier: the names are equal, and so
/// are the branch and the repository where the identifier gives them.
pub open spec fn matches_parts(name: Seq<char>, branch: Option<Seq<char>>, repo: Option<Seq<char>>, t: Theme) -> bool {
    &&& t.name@ == name
    &&& branch matches Some(b) ==> opt_view(t.branch) == Some(b)
    &&& repo matches Some(r) ==> t.repo@ == r
}

/// A theme answers the identifier `s`.
pub open spec fn id_answers(s: Seq<char>, t: Theme) -> bool {
    exists|n: Seq<char>, b: Option<Seq<char>>, r: Option<Seq<char>>|
        well_split(n, b) && #[trigger] compose_id(n, b, r) == s && matches_parts(n, b, r, t)
}

/// `i` is the first of `cands` that answers `s`.
pub open spec fn first_answer(s: Seq<char>, cands: Seq<Theme>, i: int) -> bool {
    &&& 0 <= i < cands.len()
    &&& id_answers(s, cands[i])
    &&& forall|j: int| 0 <= j < i ==> !id_answers(s, #[trigger] cands[j])
}

/// Some theme of `cands` answers `s`.
pub open spec fn any_answers(s: Seq<char>, cands: Seq<Theme>) -> bool {
    exists|i: int| 0 <= i < cands.len() && id_answers(s, #[trigger] cands[i])
}

/// The base records of installed themes.
pub open spec fn installed_records(ts: Seq<InstalledTheme>) -> Seq<Theme> {
    ts.map_values(|t: InstalledTheme| t.partial)
}

/// The base records of catalog themes.
pub open spec fn online_records(ts: Seq<OnlineTheme>) -> Seq<Theme> {
    ts.map_values(|t: OnlineTheme| t.partial)
}

proof fn lemma_query_answers(q: ThemeQuery, t: Theme)
    requires
        q.well_formed(),
    ensures
        matches_parts(q.name@, opt_view(q.branch), opt_view(q.repo), t) <==> id_answers(q.text(), t),
{
    if id_answers(q.text(), t) {
        let (n, b, r) = choose|n: Seq<char>, b: Option<Seq<char>>, r: Option<Seq<char>>|
            well_split(n, b) && #[trigger] compose_id(n, b, r) == q.text() && matches_parts(n, b, r, t);
        lemma_identifier_split_unique(n, b, r, q.name@, opt_view(q.branch), opt_view(q.repo));
    }
    if matches_parts(q.name@, opt_view(q.branch), opt_view(q.repo), t) {
        assert(compose_id(q.name@, opt_view(q.branch), opt_view(q.repo)) == q.text());
    }
}

/// Whether `t` answers the query.
pub fn matches_query(q: &ThemeQuery, t: &Theme) -> (r: bool)
    ensures
        r == matches_parts(q.name@, opt_view(q.branch), opt_view(q.repo), *t),
{
    if q.name != t.name {
        return false;
    }
    match &q.branch {
        Some(b) => match &t.branch {
            Some(tb) => {
                if *b != *tb {
                    return false;
                }
            },
            None => {
                return false;
            },
        },
        None => {},
    }
    match &q.repo {
        Some(r) => *r == t.repo,
        None => true,
    }
}

/// The first installed theme that answers `q`.
fn first_installed(q: &ThemeQuery, ts: &Vec<InstalledTheme>) -> (r: Option<usize>)
    requires
        q.well_formed(),
    ensures
        r matches Some(i) ==> first_answer(q.text(), installed_records(ts@), i as int),
        r is None ==> !any_answers(q.text(), installed_records(ts@)),
{
    let ghost recs = installed_records(ts@);
    let mut i: usize = 0;
    while i < ts.len()
        invariant
            q.well_formed(),
            recs == installed_records(ts@),
            i <= ts@.len(),
            forall|j: int| 0 <= j < i ==> !id_answers(q.text(), #[trigger] recs[j]),
        decreases ts@.len() - i,
    {
        proof {
            lemma_query_answers(*q, ts@[i as int].partial);
        }
        if matches_query(q, &ts[i].partial) {
            return Some(i);
        }
        i = i + 1;
    }
    None
}

/// The first catalog theme that answers `q`.
fn first_online(q: &ThemeQuery, ts: &Vec<OnlineTheme>) -> (r: Option<usize>)
    requires
        q.well_formed(),
    ensures
        r matches Some(i) ==> first_answer(q.text(), online_records(ts@), i as int),
        r is None ==> !any_answers(q.text(), online_records(ts@)),
{
    let ghost recs = online_records(ts@);
    let mut i: usize = 0;
    while i < ts.len()
        invariant
            q.well_formed(),
            recs == online_records(ts@),
            i <= ts@.len(),
            forall|j: int| 0 <= j < i ==> !id_answers(q.text(), #[trigger] recs[j]),
        decreases ts@.len() - i,
    {
        proof {
            lemma_query_answers(*q, ts@[i as int].partial);
        }
        if matches_query(q, &ts[i].partial) {
            return Some(i);
        }
        i = i + 1;
    }
    None
}

/// Finds, among the installed themes in search order, the first that the
/// identifier `id` names. Never looks at a catalog.
pub fn identify_offline_theme(id: &str, installed: Vec<InstalledTheme>) -> (r: Result<InstalledTheme, ThemeError>)
    ensures
        r is Ok <==> any_answers(id@, installed_records(installed@)),
        r matches Ok(t) ==> exists|i: int|
            first_answer(id@, installed_records(installed@), i) && t == #[trigger] installed@[i],
        r matches Err(e) ==> e == ThemeError::ThemeNotFound,
{
    match parse_theme_id(id) {
        None => {
            proof {
                assert forall|i: int| 0 <= i < installed@.len() implies !id_answers(
                    id@,
                    #[trigger] installed_records(installed@)[i],
                ) by {
                    if id_answers(id@, installed_records(installed@)[i]) {
                        let (n, b, r) = choose|n: Seq<char>, b: Option<Seq<char>>, r: Option<Seq<char>>|
                            well_split(n, b) && #[trigger] compose_id(n, b, r) == id@
                                && matches_parts(n, b, r, installed_records(installed@)[i]);
                        assert(id@[0] == n[0]);
                    }
                }
            }
            Err(ThemeError::ThemeNotFound)
        },
        Some(q) => match first_installed(&q, &installed) {
            Some(i) => {
                let mut installed = installed;
                let t = installed.remove(i);
                Ok(t)
            },
            None => Err(ThemeError::ThemeNotFound),
        },
    }
}

/// Finds the theme that `id` names: the first installed theme that answers
/// it, else the first catalog theme that does.
pub fn identify_theme(id: &str, installed: Vec<InstalledTheme>, online: Vec<OnlineTheme>) -> (r: Result<ThemeVariant, ThemeError>)
    ensures
        r is Ok <==> any_answers(id@, installed_records(installed@)) || any_answers(id@, online_records(online@)),
        any_answers(id@, installed_records(installed@)) ==> (r matches Ok(ThemeVariant::Installed(t))
            && exists|i: int| first_answer(id@, installed_records(installed@), i) && t == #[trigger] installed@[i]),
        !any_answers(id@, installed_records(installed@)) && any_answers(id@, online_records(online@)) ==> (r matches Ok(ThemeVariant::Online(t))
            && exists|i: int| first_answer(id@, online_records(online@), i) && t == #[trigger] online@[i]),
        r matches Err(e) ==> e == ThemeError::ThemeNotFound,
{
    let ghost recs = online_records(online@);
    match identify_offline_theme(id, installed) {
        Ok(t) => Ok(ThemeVariant::Installed(t)),
        Err(_) => match parse_theme_id(id) {
            None => {
                proof {
                    assert forall|i: int| 0 <= i < online@.len() implies !id_answers(id@, #[trigger] recs[i]) by {
                        if id_answers(id@, recs[i]) {
                            let (n, b, r) = choose|n: Seq<char>, b: Option<Seq<char>>, r: Option<Seq<char>>|
                                well_split(n, b) && #[trigger] compose_id(n, b, r) == id@
                                    && matches_parts(n, b, r, recs[i]);
                            assert(id@[0] == n[0]);
                        }
                    }
                }
                Err(ThemeError::ThemeNotFound)
            },
            Some(q) => match first_online(&q, &online) {
                Some(i) => {
                    let mut online = online;
                    let t = online.remove(i);
                    Ok(ThemeVariant::Online(t))
                },
                None => Err(ThemeError::ThemeNotFound),
            },
        },
    }
}

} // verus!
