use crate::paths::{
    components_are_safe, is_component_prefix, safe_components, split_path, split_path_exec,
    starts_with_components,
};
use vstd::prelude::*;

verus! {

/// How entry paths are to be transformed before writing: drop the first
/// `strip_components` components, and if a filter is set keep only the
/// entries whose stripped path is equal to it or nested under it.
pub struct ExtractConfig {
    pub strip_components: usize,
    pub filter: Option<Vec<Vec<u8>>>,
}

/// The mathematical model of an `ExtractConfig`.
pub struct ConfigData {
    pub strip: nat,
    pub filter: Option<Seq<Seq<u8>>>,
}

impl View for ExtractConfig {
    type V = ConfigData;

    open spec fn view(&self) -> ConfigData {
        ConfigData { strip: self.strip_components as nat, filter: self.filter.deep_view() }
    }
}

impl ExtractConfig {
    /// Build a configuration from the user-facing values: the component
    /// count to strip and the optional sub-path restriction, given as a
    /// raw path.
    pub fn new(strip_components: usize, filter: Option<&[u8]>) -> (r: ExtractConfig)
        ensures
            r@.strip == strip_components as nat,
            match filter {
                None => r@.filter is None,
                Some(f) => r@.filter == Some(split_path(f@)),
            },
    {
        match filter {
            None => ExtractConfig { strip_components, filter: None },
            Some(f) => ExtractConfig { strip_components, filter: Some(split_path_exec(f)) },
        }
    }
}

/// The decision the path transformer takes for one entry, given its
/// component sequence: `None` to skip the entry, `Some(p)` to extract it
/// at the relative output path `p`.
///
/// An entry is skipped when stripping would consume its whole path (or
/// more), when the stripped path still carries a `..` component (which
/// could climb out of the output root), or when a filter is set and the
/// stripped path is neither equal to it nor nested under it.
pub open spec fn transform_spec(comps: Seq<Seq<u8>>, cfg: ConfigData) -> Option<Seq<Seq<u8>>> {
    if comps.len() <= cfg.strip {
        None
    } else {
        let stripped = comps.skip(cfg.strip as int);
        if !safe_components(stripped) {
            None
        } else if cfg.filter matches Some(f) && !is_component_prefix(f, stripped) {
            None
        } else {
            Some(stripped)
        }
    }
}

/// Apply stripping and filtering to one entry's component sequence.
pub fn transform_path(comps: Vec<Vec<u8>>, cfg: &ExtractConfig) -> (r: Option<Vec<Vec<u8>>>)
    ensures
        match r {
            Some(v) => transform_spec(comps.deep_view(), cfg@) == Some(v.deep_view()),
            None => transform_spec(comps.deep_view(), cfg@) is None,
        },
{
    let ghost orig = comps.deep_view();
    if comps.len() <= cfg.strip_components {
        return None;
    }
    let mut rest = comps;
    let mut k: usize = 0;
    while k < cfg.strip_components
        invariant
            k <= cfg.strip_components,
            cfg.strip_components < orig.len(),
            rest.deep_view() == orig.skip(k as int),
        decreases cfg.strip_components - k,
    {
        let ghost before = rest.deep_view();
        rest.remove(0);
        proof {
            assert(rest.deep_view() =~~= before.remove(0));
            assert(before.remove(0) =~~= orig.skip(k as int + 1));
        }
        k = k + 1;
    }
    let ghost stripped = orig.skip(cfg.strip_components as int);
    if !components_are_safe(&rest) {
        return None;
    }
    match &cfg.filter {
        Some(f) => {
            proof {
                assert(cfg@.filter == Some(f.deep_view()));
            }
            if starts_with_components(&rest, f) {
                Some(rest)
            } else {
                None
            }
        },
        None => Some(rest),
    }
}

/// Strip correctness: with no filter set, a traversal-free entry is
/// transformed iff its component count exceeds `strip`, and the result is
/// then exactly the path with its first `strip` components removed.
pub proof fn lemma_strip_correctness(comps: Seq<Seq<u8>>, strip: nat)
    requires
        safe_components(comps),
    ensures
        (transform_spec(comps, ConfigData { strip, filter: None }) is Some) <==> comps.len()
            > strip,
        comps.len() > strip ==> transform_spec(comps, ConfigData { strip, filter: None }) == Some(
            comps.skip(strip as int),
        ),
{
    if comps.len() > strip {
        assert(safe_components(comps.skip(strip as int))) by {
            assert forall|j: int|
                0 <= j < comps.skip(strip as int).len() implies #[trigger] comps.skip(
                strip as int,
            )[j] != crate::paths::parent_component() by {
                assert(comps.skip(strip as int)[j] == comps[strip + j]);
            }
        }
    }
}

/// Empty-after-strip skip: an entry whose path has exactly as many
/// components as are stripped is never transformed, whatever the filter.
pub proof fn lemma_empty_after_strip(comps: Seq<Seq<u8>>, cfg: ConfigData)
    requires
        comps.len() == cfg.strip,
    ensures
        transform_spec(comps, cfg) is None,
{
}

/// Filter correctness: with filter `f` set and a traversal-free stripped
/// path `p`, the entry is kept iff `p` equals `f` or `f` is a
/// component-wise prefix of `p`; the result is then `p` itself.
pub proof fn lemma_filter_correctness(comps: Seq<Seq<u8>>, strip: nat, f: Seq<Seq<u8>>)
    requires
        comps.len() > strip,
        safe_components(comps.skip(strip as int)),
    ensures
        (transform_spec(comps, ConfigData { strip, filter: Some(f) }) is Some) <==> (comps.skip(
            strip as int,
        ) == f || is_component_prefix(f, comps.skip(strip as int))),
        (transform_spec(comps, ConfigData { strip, filter: Some(f) }) is Some)
            ==> transform_spec(comps, ConfigData { strip, filter: Some(f) }) == Some(
            comps.skip(strip as int),
        ),
{
    let p = comps.skip(strip as int);
    if p == f {
        assert(p.take(f.len() as int) =~~= f);
        assert(is_component_prefix(f, p));
    }
}

} // verus!
