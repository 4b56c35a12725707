//! Gathering what the compositor is to source at start-up.

use vstd::prelude::*;
use crate::installed::InstalledTheme;

verus! {

/// The themes that are enabled.
pub open spec fn is_on() -> spec_fn(InstalledTheme) -> bool {
    |t: InstalledTheme| t.config.enabled
}

/// Keeps the enabled themes, in their order.
pub fn get_enabled_themes(themes: Vec<InstalledTheme>) -> (r: Vec<InstalledTheme>)
    ensures
        r@ == themes@.filter(is_on()),
{
    let ghost orig = themes@;
    let mut themes = themes;
    let total: usize = themes.len();
    let mut r: Vec<InstalledTheme> = Vec::new();
    let mut i: usize = 0;
    while themes.len() > 0
        invariant
            i + themes@.len() == orig.len(),
            orig.len() == total,
            themes@ == orig.subrange(i as int, orig.len() as int),
            r@ == orig.subrange(0, i as int).filter(is_on()),
        decreases themes@.len(),
    {
        let t = themes.remove(0);
        assert(t == orig[i as int]);
        let ghost s1 = orig.subrange(0, i as int + 1);
        proof {
            reveal(Seq::filter);
            assert(s1.drop_last() =~= orig.subrange(0, i as int));
        }
        if t.config.enabled {
            r.push(t);
        }
        assert(r@ == s1.filter(is_on()));
        i = i + 1;
    }
    assert(orig.subrange(0, i as int) =~= orig);
    r
}

/// The configuration paths of modules.
pub open spec fn module_sources(ms: Seq<InstalledTheme>) -> Seq<Seq<char>> {
    ms.map_values(|m: InstalledTheme| m.config.theme.config@)
}

/// For the first `n` themes, each theme's configuration path followed by
/// those of its enabled modules.
pub open spec fn sources(themes: Seq<InstalledTheme>, modules: Seq<Vec<InstalledTheme>>, n: nat) -> Seq<Seq<char>>
    decreases n,
{
    if n == 0 {
        Seq::empty()
    } else {
        sources(themes, modules, (n - 1) as nat).push(themes[n - 1].config.theme.config@) + module_sources(
            modules[n - 1]@,
        )
    }
}

/// The configuration paths to source: for each enabled theme its own, then
/// those of its enabled modules. `modules[i]` holds the enabled modules of
/// `enabled[i]`.
pub fn get_all_source_paths(enabled: &Vec<InstalledTheme>, modules: &Vec<Vec<InstalledTheme>>) -> (r: Vec<String>)
    requires
        modules@.len() == enabled@.len(),
    ensures
        r@.map_values(|s: String| s@) == sources(enabled@, modules@, enabled@.len()),
{
    let mut r: Vec<String> = Vec::new();
    let mut i: usize = 0;
    while i < enabled.len()
        invariant
            modules@.len() == enabled@.len(),
            i <= enabled@.len(),
            r@.map_values(|s: String| s@) == sources(enabled@, modules@, i as nat),
        decreases enabled@.len() - i,
    {
        let ghost before = r@.map_values(|s: String| s@);
        r.push(enabled[i].config.theme.config.clone());
        assert(r@.map_values(|s: String| s@) =~= before.push(enabled@[i as int].config.theme.config@));
        let ms = &modules[i];
        let ghost mid = r@.map_values(|s: String| s@);
        let mut k: usize = 0;
        while k < ms.len()
            invariant
                k <= ms@.len(),
                r@.map_values(|s: String| s@) == mid + module_sources(ms@.subrange(0, k as int)),
            decreases ms@.len() - k,
        {
            let ghost prev = r@.map_values(|s: String| s@);
            r.push(ms[k].config.theme.config.clone());
            assert(module_sources(ms@.subrange(0, k as int + 1)) =~= module_sources(ms@.subrange(0, k as int)).push(
                ms@[k as int].config.theme.config@,
            ));
            assert(r@.map_values(|s: String| s@) =~= prev.push(ms@[k as int].config.theme.config@));
            k = k + 1;
        }
        assert(ms@.subrange(0, k as int) =~= ms@);
        i = i + 1;
    }
    r
}

} // verus!
