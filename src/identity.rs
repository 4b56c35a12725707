//! Theme records, their identity, and the identifiers users type to name them.

use vstd::prelude::*;

verus! {

/// The view of an optional string.
pub open spec fn opt_view(o: Option<String>) -> Option<Seq<char>> {
    match o {
        Some(s) => Some(s@),
        None => None,
    }
}

/// The key that tells two theme instances apart: a repository and a branch,
/// where no branch differs from every named one.
#[derive(Clone, Debug, PartialEq, Eq)]
pub struct ThemeId {
    pub repo: String,
    pub branch: Option<String>,
}

/// Two ids name the same theme.
pub open spec fn same_id(a: ThemeId, b: ThemeId) -> bool {
    a.repo@ == b.repo@ && opt_view(a.branch) == opt_view(b.branch)
}

/// The base record of a theme, as a catalog lists it and as a manifest gives it.
#[derive(Clone, Debug, PartialEq, Eq)]
pub struct Theme {
    pub name: String,
    pub repo: String,
    pub branch: Option<String>,
    pub desc: String,
    pub images: Vec<String>,
}

impl Theme {
    pub fn new(name: String, repo: String, branch: Option<String>, desc: String, images: Vec<String>) -> (r: Theme)
        ensures
            r == (Theme { name, repo, branch, desc, images }),
    {
        Theme { name, repo, branch, desc, images }
    }

    /// `self` holds the same record as `o`.
    pub open spec fn same_record(self, o: Theme) -> bool {
        &&& self.name@ == o.name@
        &&& self.repo@ == o.repo@
        &&& opt_view(self.branch) == opt_view(o.branch)
        &&& self.desc@ == o.desc@
        &&& self.images@.len() == o.images@.len()
        &&& forall|i: int| 0 <= i < self.images@.len() ==> #[trigger] self.images@[i]@ == o.images@[i]@
    }

    /// A copy of this record.
    pub fn copy(&self) -> (r: Theme)
        ensures
            r.same_record(*self),
    {
        let mut images: Vec<String> = Vec::new();
        let mut i: usize = 0;
        while i < self.images.len()
            invariant
                i <= self.images@.len(),
                images@.len() == i,
                forall|k: int| 0 <= k < i ==> #[trigger] images@[k]@ == self.images@[k]@,
            decreases self.images@.len() - i,
        {
            images.push(self.images[i].clone());
            i = i + 1;
        }
        Theme {
            name: self.name.clone(),
            repo: self.repo.clone(),
            branch: clone_opt(&self.branch),
            desc: self.desc.clone(),
            images,
        }
    }

    /// The id of this theme.
    pub open spec fn id_spec(self) -> ThemeId {
        ThemeId { repo: self.repo, branch: self.branch }
    }

    pub fn get_id(&self) -> (r: ThemeId)
        ensures
            same_id(r, self.id_spec()),
    {
        ThemeId { repo: self.repo.clone(), branch: clone_opt(&self.branch) }
    }
}

/// Copies an optional string.
pub fn clone_opt(o: &Option<String>) -> (r: Option<String>)
    ensures
        opt_view(r) == opt_view(*o),
{
    match o {
        Some(s) => Some(s.clone()),
        None => None,
    }
}

/// Compares two ids.
pub fn ids_equal(a: &ThemeId, b: &ThemeId) -> (r: bool)
    ensures
        r == same_id(*a, *b),
{
    if a.repo != b.repo {
        return false;
    }
    match (&a.branch, &b.branch) {
        (Some(x), Some(y)) => *x == *y,
        (None, None) => true,
        _ => false,
    }
}

/// Whether `id` is among `ids`.
pub open spec fn id_listed(ids: Seq<ThemeId>, id: ThemeId) -> bool {
    exists|i: int| 0 <= i < ids.len() && same_id(#[trigger] ids[i], id)
}

/// Whether an id equal to `id` is among `ids`.
pub fn is_listed(ids: &Vec<ThemeId>, id: &ThemeId) -> (r: bool)
    ensures
        r == id_listed(ids@, *id),
{
    let mut j: usize = 0;
    while j < ids.len()
        invariant
            j <= ids@.len(),
            forall|k: int| 0 <= k < j ==> !same_id(#[trigger] ids@[k], *id),
        decreases ids@.len() - j,
    {
        if ids_equal(&ids[j], id) {
            return true;
        }
        j = j + 1;
    }
    false
}

/// The themes that `exclude` does not list.
pub open spec fn kept_by(exclude: Seq<ThemeId>) -> spec_fn(Theme) -> bool {
    |t: Theme| !id_listed(exclude, t.id_spec())
}

/// Keeps the themes whose id is not listed in `exclude`, in their order.
pub fn exclude_ids(themes: Vec<Theme>, exclude: &Vec<ThemeId>) -> (r: Vec<Theme>)
    ensures
        r@ == themes@.filter(kept_by(exclude@)),
{
    let mut r: Vec<Theme> = Vec::new();
    let mut i: usize = 0;
    let mut themes = themes;
    let ghost orig = themes@;
    let total: usize = themes.len();
    while themes.len() > 0
        invariant
            i + themes@.len() == orig.len(),
            orig.len() == total,
            themes@ == orig.subrange(i as int, orig.len() as int),
            r@ == orig.subrange(0, i as int).filter(kept_by(exclude@)),
        decreases themes@.len(),
    {
        let t = themes.remove(0);
        assert(t == orig[i as int]);
        let id = t.get_id();
        let listed = is_listed(exclude, &id);
        assert(orig.subrange(0, i as int + 1).drop_last() =~= orig.subrange(0, i as int));
        assert(orig.subrange(0, i as int + 1).last() == t);
        assert(same_id(id, t.id_spec()));
        assert(listed == id_listed(exclude@, t.id_spec())) by {
            if listed {
                let k = choose|k: int| 0 <= k < exclude@.len() && same_id(#[trigger] exclude@[k], id);
                assert(same_id(exclude@[k], t.id_spec()));
            }
            if id_listed(exclude@, t.id_spec()) {
                let k = choose|k: int| 0 <= k < exclude@.len() && same_id(#[trigger] exclude@[k], t.id_spec());
                assert(same_id(exclude@[k], id));
            }
        }
        assert(kept_by(exclude@)(t) == !listed);
        let ghost prev = r@;
        let ghost s1 = orig.subrange(0, i as int + 1);
        proof {
            reveal(Seq::filter);
        }
        assert(s1.filter(kept_by(exclude@)) == (if kept_by(exclude@)(s1.last()) {
            s1.drop_last().filter(kept_by(exclude@)).push(s1.last())
        } else {
            s1.drop_last().filter(kept_by(exclude@))
        }));
        if !listed {
            r.push(t);
        }
        assert(r@ == s1.filter(kept_by(exclude@)));
        i = i + 1;
    }
    assert(orig.subrange(0, i as int) =~= orig);
    r
}

/// What an identifier asks for: a name, and optionally a branch and a
/// repository, written `name:branch@repository`.
#[derive(Clone, Debug, PartialEq, Eq)]
pub struct ThemeQuery {
    pub name: String,
    pub branch: Option<String>,
    pub repo: Option<String>,
}

/// The identifier text for a name, an optional branch and an optional repository.
pub open spec fn compose_id(name: Seq<char>, branch: Option<Seq<char>>, repo: Option<Seq<char>>) -> Seq<char> {
    name + match branch {
        Some(b) => seq![':'] + b,
        None => Seq::empty(),
    } + match repo {
        Some(r) => seq!['@'] + r,
        None => Seq::empty(),
    }
}

/// A delimiter that ends a name.
pub open spec fn ends_name(c: char) -> bool {
    c == ':' || c == '@'
}

/// The parts of an identifier: a non-empty name without delimiters, and a
/// branch without `@`. The repository may hold anything.
pub open spec fn well_split(name: Seq<char>, branch: Option<Seq<char>>) -> bool {
    &&& name.len() > 0
    &&& forall|i: int| 0 <= i < name.len() ==> !ends_name(#[trigger] name[i])
    &&& branch matches Some(b) ==> forall|i: int| 0 <= i < b.len() ==> #[trigger] b[i] != '@'
}

/// An identifier names something when it does not start with a delimiter.
pub open spec fn names_something(s: Seq<char>) -> bool {
    s.len() > 0 && !ends_name(s[0])
}

impl ThemeQuery {
    pub open spec fn text(self) -> Seq<char> {
        compose_id(self.name@, opt_view(self.branch), opt_view(self.repo))
    }

    pub open spec fn well_formed(self) -> bool {
        well_split(self.name@, opt_view(self.branch))
    }
}

/// Splits an identifier into its name, branch and repository. The name runs
/// to the first `:` or `@`; after a `:` the branch runs to the next `@`;
/// after that `@` the rest is the repository.
pub fn parse_theme_id(s: &str) -> (r: Option<ThemeQuery>)
    ensures
        r is Some <==> names_something(s@),
        r matches Some(q) ==> q.well_formed() && q.text() == s@,
{
    let n = s.unicode_len();
    let mut i: usize = 0;
    while i < n && s.get_char(i) != ':' && s.get_char(i) != '@'
        invariant
            n == s@.len(),
            i <= n,
            forall|k: int| 0 <= k < i ==> !ends_name(#[trigger] s@[k]),
        decreases n - i,
    {
        i = i + 1;
    }
    if i == 0 {
        return None;
    }
    let name = String::from_str(s.substring_char(0, i));
    if i == n {
        let q = ThemeQuery { name, branch: None, repo: None };
        assert(q.text() =~= s@);
        return Some(q);
    }
    if s.get_char(i) == '@' {
        let repo = String::from_str(s.substring_char(i + 1, n));
        let q = ThemeQuery { name, branch: None, repo: Some(repo) };
        assert(q.text() =~= s@);
        return Some(q);
    }
    let mut j: usize = i + 1;
    while j < n && s.get_char(j) != '@'
        invariant
            n == s@.len(),
            i < j <= n,
            forall|k: int| i < k < j ==> #[trigger] s@[k] != '@',
        decreases n - j,
    {
        j = j + 1;
    }
    let branch = String::from_str(s.substring_char(i + 1, j));
    let repo = if j < n {
        Some(String::from_str(s.substring_char(j + 1, n)))
    } else {
        None
    };
    let q = ThemeQuery { name, branch: Some(branch), repo };
    assert(forall|k: int| 0 <= k < branch@.len() ==> branch@[k] == s@[i + 1 + k]);
    assert(q.text() =~= s@);
    Some(q)
}

/// An identifier has exactly one split into a well-formed name and branch
/// and a repository, so the parts that `parse_theme_id` returns are the ones
/// the identifier was written from, whichever of branch and repository are
/// present.
pub proof fn lemma_identifier_split_unique(
    n1: Seq<char>,
    b1: Option<Seq<char>>,
    r1: Option<Seq<char>>,
    n2: Seq<char>,
    b2: Option<Seq<char>>,
    r2: Option<Seq<char>>,
)
    requires
        well_split(n1, b1),
        well_split(n2, b2),
        compose_id(n1, b1, r1) == compose_id(n2, b2, r2),
    ensures
        n1 == n2,
        b1 == b2,
        r1 == r2,
{
    let s = compose_id(n1, b1, r1);
    let t1 = s.subrange(n1.len() as int, s.len() as int);
    let t2 = s.subrange(n2.len() as int, s.len() as int);
    let tail1 = match b1 { Some(b) => seq![':'] + b, None => Seq::empty() } + match r1 { Some(r) => seq!['@'] + r, None => Seq::empty() };
    let tail2 = match b2 { Some(b) => seq![':'] + b, None => Seq::empty() } + match r2 { Some(r) => seq!['@'] + r, None => Seq::empty() };
    assert(s =~= n1 + tail1);
    assert(s =~= n2 + tail2);
    if n1.len() < n2.len() {
        assert(s[n1.len() as int] == n2[n1.len() as int]);
        assert(tail1.len() > 0);
        assert(s[n1.len() as int] == tail1[0]);
        assert(false);
    }
    if n2.len() < n1.len() {
        assert(s[n2.len() as int] == n1[n2.len() as int]);
        assert(tail2.len() > 0);
        assert(s[n2.len() as int] == tail2[0]);
        assert(false);
    }
    assert(n1 =~= s.subrange(0, n1.len() as int));
    assert(n2 =~= s.subrange(0, n2.len() as int));
    assert(t1 =~= tail1);
    assert(t2 =~= tail2);
    assert(tail1 == tail2);
    let rest1 = match r1 { Some(r) => seq!['@'] + r, None => Seq::<char>::empty() };
    let rest2 = match r2 { Some(r) => seq!['@'] + r, None => Seq::<char>::empty() };
    match (b1, b2) {
        (Some(x), Some(y)) => {
            assert(tail1 =~= seq![':'] + x + rest1);
            assert(tail2 =~= seq![':'] + y + rest2);
            if x.len() < y.len() {
                assert(tail1[x.len() as int + 1] == y[x.len() as int]);
                assert(rest1.len() > 0);
                assert(tail1[x.len() as int + 1] == rest1[0]);
                assert(false);
            }
            if y.len() < x.len() {
                assert(tail2[y.len() as int + 1] == x[y.len() as int]);
                assert(rest2.len() > 0);
                assert(tail2[y.len() as int + 1] == rest2[0]);
                assert(false);
            }
            assert(x =~= tail1.subrange(1, x.len() as int + 1));
            assert(y =~= tail2.subrange(1, y.len() as int + 1));
            assert(rest1 =~= tail1.subrange(x.len() as int + 1, tail1.len() as int));
            assert(rest2 =~= tail2.subrange(y.len() as int + 1, tail2.len() as int));
        },
        (Some(x), None) => {
            assert(tail1[0] == ':');
            assert(tail2 =~= rest2);
            assert(false);
        },
        (None, Some(y)) => {
            assert(tail2[0] == ':');
            assert(tail1 =~= rest1);
            assert(false);
        },
        (None, None) => {
            assert(rest1 =~= tail1);
            assert(rest2 =~= tail2);
        },
    }
    assert(rest1 == rest2);
    match (r1, r2) {
        (Some(x), Some(y)) => {
            assert(x =~= rest1.subrange(1, rest1.len() as int));
            assert(y =~= rest2.subrange(1, rest2.len() as int));
        },
        (Some(x), None) => {
            assert(rest1.len() > 0);
        },
        (None, Some(y)) => {
            assert(rest2.len() > 0);
        },
        (None, None) => {},
    }
}

} // verus!
