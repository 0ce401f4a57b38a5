use crate::entry::{entry_kind, kind_of_byte, Action, ActionData, EntryData, EntryKind, RawEntry};
use crate::paths::{split_path, split_path_exec};
use crate::transform::{transform_path, transform_spec, ConfigData, ExtractConfig};
use vstd::prelude::*;

verus! {

/// The views of a decoded entry sequence.
pub open spec fn entries_view(es: Seq<RawEntry>) -> Seq<EntryData> {
    es.map_values(|e: RawEntry| e@)
}

/// The views of an action sequence.
pub open spec fn actions_view(ac: Seq<Action>) -> Seq<ActionData> {
    ac.map_values(|a: Action| a@)
}

/// The decision for one decoded entry: `None` if it is skipped, otherwise
/// the write to perform.  An entry is skipped when its kind is not
/// materialized or when the path transformer rejects its path.
pub open spec fn plan_entry_spec(e: EntryData, cfg: ConfigData) -> Option<ActionData> {
    if kind_of_byte(e.type_byte) == EntryKind::Other {
        None
    } else {
        match transform_spec(split_path(e.path), cfg) {
            Some(p) => Some(
                ActionData {
                    path: p,
                    kind: kind_of_byte(e.type_byte),
                    mode: e.mode,
                    link: e.link,
                    data: e.data,
                },
            ),
            None => None,
        }
    }
}

/// An optional action as a sequence of zero or one actions.
pub open spec fn opt_action_seq(a: Option<ActionData>) -> Seq<ActionData> {
    match a {
        Some(x) => seq![x],
        None => Seq::empty(),
    }
}

/// The write plan for a decoded entry sequence: the actions of the kept
/// entries, in entry order.
pub open spec fn plan_spec(es: Seq<EntryData>, cfg: ConfigData) -> Seq<ActionData>
    decreases es.len(),
{
    if es.len() == 0 {
        Seq::empty()
    } else {
        opt_action_seq(plan_entry_spec(es[0], cfg)) + plan_spec(es.skip(1), cfg)
    }
}

/// Compute the write plan for a decoded entry sequence.
pub fn plan_entries(entries: Vec<RawEntry>, cfg: &ExtractConfig) -> (r: Vec<Action>)
    ensures
        actions_view(r@) == plan_spec(entries_view(entries@), cfg@),
{
    let ghost orig = entries_view(entries@);
    let mut rest = entries;
    let mut out: Vec<Action> = Vec::new();
    proof {
        assert(actions_view(out@) + plan_spec(entries_view(rest@), cfg@) =~~= plan_spec(
            orig,
            cfg@,
        ));
    }
    while rest.len() > 0
        invariant
            plan_spec(orig, cfg@) == actions_view(out@) + plan_spec(entries_view(rest@), cfg@),
        decreases rest.len(),
    {
        let ghost cur_views = entries_view(rest@);
        let e = rest.remove(0);
        proof {
            assert(cur_views.len() > 0);
            assert(e@ == cur_views[0]);
            assert(entries_view(rest@) =~~= cur_views.skip(1));
            assert(plan_spec(cur_views, cfg@) == opt_action_seq(plan_entry_spec(cur_views[0], cfg@))
                + plan_spec(cur_views.skip(1), cfg@));
        }
        let kind = entry_kind(e.type_byte);
        if kind == EntryKind::Other {
            proof {
                assert(opt_action_seq(plan_entry_spec(e@, cfg@)) =~~= Seq::<ActionData>::empty());
                assert(actions_view(out@) + plan_spec(entries_view(rest@), cfg@) =~~= plan_spec(
                    orig,
                    cfg@,
                ));
            }
        } else {
            let comps = split_path_exec(e.path.as_slice());
            let ghost old_out = out@;
            match transform_path(comps, cfg) {
                Some(p) => {
                    let a = Action { path: p, kind, mode: e.mode, link: e.link, data: e.data };
                    proof {
                        assert(plan_entry_spec(e@, cfg@) == Some(a@));
                    }
                    out.push(a);
                    proof {
                        assert(actions_view(out@) =~~= actions_view(old_out) + opt_action_seq(
                            plan_entry_spec(e@, cfg@),
                        ));
                        assert(actions_view(out@) + plan_spec(entries_view(rest@), cfg@)
                            =~~= plan_spec(orig, cfg@));
                    }
                },
                None => {
                    proof {
                        assert(opt_action_seq(plan_entry_spec(e@, cfg@)) =~~= Seq::<
                            ActionData,
                        >::empty());
                        assert(actions_view(out@) + plan_spec(entries_view(rest@), cfg@)
                            =~~= plan_spec(orig, cfg@));
                    }
                },
            }
        }
    }
    proof {
        assert(entries_view(rest@) =~~= Seq::<EntryData>::empty());
        assert(actions_view(out@) =~~= plan_spec(orig, cfg@));
    }
    out
}

/// Strip correctness for one entry: with no filter set, an entry of a
/// materialized kind and a traversal-free declared path is planned iff its
/// component count exceeds `strip`, and its output path is then exactly
/// the declared path with the first `strip` components removed.
pub proof fn lemma_entry_strip_correctness(e: EntryData, strip: nat)
    requires
        kind_of_byte(e.type_byte) != EntryKind::Other,
        crate::paths::safe_components(split_path(e.path)),
    ensures
        (plan_entry_spec(e, ConfigData { strip, filter: None }) is Some) <==> split_path(
            e.path,
        ).len() > strip,
        split_path(e.path).len() > strip ==> plan_entry_spec(
            e,
            ConfigData { strip, filter: None },
        ).unwrap().path == split_path(e.path).skip(strip as int),
{
    crate::transform::lemma_strip_correctness(split_path(e.path), strip);
}

/// Filter correctness for one entry: with filter `f` set and a
/// traversal-free stripped path `p`, the entry is planned iff `p` equals
/// `f` or `f` is a component-wise prefix of `p`.
pub proof fn lemma_entry_filter_correctness(e: EntryData, strip: nat, f: Seq<Seq<u8>>)
    requires
        kind_of_byte(e.type_byte) != EntryKind::Other,
        split_path(e.path).len() > strip,
        crate::paths::safe_components(split_path(e.path).skip(strip as int)),
    ensures
        (plan_entry_spec(e, ConfigData { strip, filter: Some(f) }) is Some) <==> (split_path(
            e.path,
        ).skip(strip as int) == f || crate::paths::is_component_prefix(
            f,
            split_path(e.path).skip(strip as int),
        )),
{
    crate::transform::lemma_filter_correctness(split_path(e.path), strip, f);
}

/// A relative output path that stays lexically inside the output root:
/// it has at least one component, and no component is empty, `.` or `..`.
pub open spec fn action_path_safe(a: ActionData) -> bool {
    a.path.len() > 0 && (forall|i: int|
        0 <= i < a.path.len() ==> crate::paths::keep_component(#[trigger] a.path[i]) && a.path[i]
            != crate::paths::parent_component())
}

/// Whatever one entry declares as its path, the action planned for it
/// writes lexically inside the output root.
pub proof fn lemma_entry_action_safe(e: EntryData, cfg: ConfigData)
    requires
        plan_entry_spec(e, cfg) is Some,
    ensures
        action_path_safe(plan_entry_spec(e, cfg).unwrap()),
{
    crate::paths::lemma_split_path_keeps(e.path);
    let comps = split_path(e.path);
    let stripped = comps.skip(cfg.strip as int);
    assert(crate::paths::safe_components(stripped));
    assert forall|i: int| 0 <= i < stripped.len() implies crate::paths::keep_component(
        #[trigger] stripped[i],
    ) && stripped[i] != crate::paths::parent_component() by {
        assert(stripped[i] == comps[cfg.strip + i]);
    }
}

/// Path-escape safety for a whole plan: every action of the plan of any
/// decoded entry sequence writes lexically inside the output root,
/// whatever paths the container declared.
pub proof fn lemma_plan_paths_safe(es: Seq<EntryData>, cfg: ConfigData)
    ensures
        forall|k: int|
            0 <= k < plan_spec(es, cfg).len() ==> action_path_safe(#[trigger] plan_spec(es, cfg)[k]),
    decreases es.len(),
{
    if es.len() > 0 {
        lemma_plan_paths_safe(es.skip(1), cfg);
        let head = opt_action_seq(plan_entry_spec(es[0], cfg));
        let tail = plan_spec(es.skip(1), cfg);
        if plan_entry_spec(es[0], cfg) is Some {
            lemma_entry_action_safe(es[0], cfg);
        }
        assert forall|k: int| 0 <= k < plan_spec(es, cfg).len() implies action_path_safe(
            #[trigger] plan_spec(es, cfg)[k],
        ) by {
            assert(plan_spec(es, cfg) == head + tail);
            if k < head.len() {
                assert(plan_spec(es, cfg)[k] == head[k]);
            } else {
                assert(plan_spec(es, cfg)[k] == tail[k - head.len()]);
            }
        }
    }
}

/// Empty-after-strip skip for one entry: an entry whose declared path has
/// exactly as many components as are stripped is never planned, whatever
/// its kind and whatever the filter.
pub proof fn lemma_entry_empty_after_strip(e: EntryData, cfg: ConfigData)
    requires
        split_path(e.path).len() == cfg.strip,
    ensures
        plan_entry_spec(e, cfg) is None,
{
    crate::transform::lemma_empty_after_strip(split_path(e.path), cfg);
}

} // verus!
