//! Configuration synthesis.
//!
//! A synthesis run materializes the engine's configuration directory from
//! three sources: every file of the preset base directory, the selected
//! outbound fragment, and the selected routing fragment. The engine layers
//! fragments by file-name sort order, so the outbound fragment is written
//! under a fixed name that sorts after the base files, and the routing
//! fragment under a fixed name that sorts after the outbound one — routing
//! rules may then reference outbound tags defined earlier.
//!
//! The library computes the synthesis as a plan of copy steps; the embedding
//! program erases the scratch directory, recreates it and executes the steps
//! in order, reporting any filesystem failure as a `ConfigError`.

use vstd::prelude::*;
use vstd::string::*;
use crate::config::str_eq;
use crate::path::{AppPath, join_path};

verus! {

/// Why a synthesis could not be planned or executed. The two fragment
/// variants are decided while planning; the directory and write variants are
/// reported by the embedding program when executing the plan.
#[derive(Clone, Copy, Debug, PartialEq, Eq)]
pub enum ConfigError {
    OutboundFragmentMissing,
    RoutingFragmentMissing,
    PresetDirMissing,
    WriteFailed,
}

/// One file copy of the plan.
#[derive(Debug)]
pub struct CopyStep {
    pub from: String,
    pub to: String,
}

/// Mathematical value of one copy step.
pub ghost struct CopyStepView {
    pub from: Seq<char>,
    pub to: Seq<char>,
}

impl View for CopyStep {
    type V = CopyStepView;

    open spec fn view(&self) -> CopyStepView {
        CopyStepView { from: self.from@, to: self.to@ }
    }
}

impl DeepView for CopyStep {
    type V = CopyStepView;

    open spec fn deep_view(&self) -> CopyStepView {
        self.view()
    }
}

/// The planned synthesis: erase and recreate `scratch_dir`, copy the base
/// files, then the outbound fragment, then the routing fragment.
#[derive(Debug)]
pub struct SynthesisPlan {
    pub scratch_dir: String,
    pub base_copies: Vec<CopyStep>,
    pub outbound_copy: CopyStep,
    pub routing_copy: CopyStep,
}

/// Mathematical value of a synthesis plan.
pub ghost struct SynthesisPlanView {
    pub scratch_dir: Seq<char>,
    pub base_copies: Seq<CopyStepView>,
    pub outbound_copy: CopyStepView,
    pub routing_copy: CopyStepView,
}

impl View for SynthesisPlan {
    type V = SynthesisPlanView;

    open spec fn view(&self) -> SynthesisPlanView {
        SynthesisPlanView {
            scratch_dir: self.scratch_dir@,
            base_copies: self.base_copies.deep_view(),
            outbound_copy: self.outbound_copy@,
            routing_copy: self.routing_copy@,
        }
    }
}

/// The name the outbound fragment is materialized under.
pub open spec fn spec_outbound_file_name() -> Seq<char> {
    "98.outbounds.json"@
}

/// The name the routing fragment is materialized under; it must sort after
/// the outbound name.
pub open spec fn spec_routing_file_name() -> Seq<char> {
    "99.routing.json"@
}

/// A directory entry name joined under a directory.
pub open spec fn spec_join(dir: Seq<char>, name: Seq<char>) -> Seq<char> {
    dir + "/"@ + name
}

/// The exact plan a synthesis run produces from the given directories,
/// base-file names and selections.
pub open spec fn spec_synthesis_plan(
    scratch: Seq<char>,
    preset: Seq<char>,
    outbound_dir: Seq<char>,
    routing_dir: Seq<char>,
    base_names: Seq<Seq<char>>,
    outbound_sel: Seq<char>,
    routing_sel: Seq<char>,
) -> SynthesisPlanView {
    SynthesisPlanView {
        scratch_dir: scratch,
        base_copies: base_names.map_values(
            |n: Seq<char>| CopyStepView { from: spec_join(preset, n), to: spec_join(scratch, n) },
        ),
        outbound_copy: CopyStepView {
            from: spec_join(outbound_dir, outbound_sel),
            to: spec_join(scratch, spec_outbound_file_name()),
        },
        routing_copy: CopyStepView {
            from: spec_join(routing_dir, routing_sel),
            to: spec_join(scratch, spec_routing_file_name()),
        },
    }
}

/// A name occurs in a listing.
pub open spec fn spec_name_listed(names: Seq<Seq<char>>, name: Seq<char>) -> bool {
    exists|i: int| 0 <= i < names.len() && names[i] == name
}

/// Whether the listing holds the name.
fn name_listed(names: &Vec<String>, name: &str) -> (r: bool)
    ensures
        r == spec_name_listed(names.deep_view(), name@),
{
    let mut k: usize = 0;
    while k < names.len()
        invariant
            k <= names.len(),
            forall|i: int| 0 <= i < k ==> names.deep_view()[i] != name@,
        decreases names.len() - k,
    {
        if str_eq(names[k].as_str(), name) {
            proof {
                assert(names.deep_view()[k as int] == name@);
            }
            return true;
        }
        k = k + 1;
    }
    false
}

/// Plans a synthesis run: resolves the selected outbound and routing
/// fragments within their catalogs (a selection that is not listed is a
/// recoverable configuration error, outbound checked first), and lays out
/// the copy steps in load order. The resulting plan is a pure function of
/// its inputs.
pub fn synthesize(
    paths: &AppPath,
    base_names: &Vec<String>,
    outbound_names: &Vec<String>,
    routing_names: &Vec<String>,
    outbound_sel: &str,
    routing_sel: &str,
) -> (r: Result<SynthesisPlan, ConfigError>)
    ensures
        match r {
            Ok(plan) => spec_name_listed(outbound_names.deep_view(), outbound_sel@)
                && spec_name_listed(routing_names.deep_view(), routing_sel@) && plan@
                == spec_synthesis_plan(
                paths.spec_app_home_dir() + "/confdir"@,
                paths.spec_app_core_dir() + "/confdir"@,
                paths.spec_app_home_dir() + "/outbound"@,
                paths.spec_app_home_dir() + "/routing"@,
                base_names.deep_view(),
                outbound_sel@,
                routing_sel@,
            ),
            Err(e) => (e == ConfigError::OutboundFragmentMissing && !spec_name_listed(
                outbound_names.deep_view(),
                outbound_sel@,
            )) || (e == ConfigError::RoutingFragmentMissing && spec_name_listed(
                outbound_names.deep_view(),
                outbound_sel@,
            ) && !spec_name_listed(routing_names.deep_view(), routing_sel@)),
        },
{
    if !name_listed(outbound_names, outbound_sel) {
        return Err(ConfigError::OutboundFragmentMissing);
    }
    if !name_listed(routing_names, routing_sel) {
        return Err(ConfigError::RoutingFragmentMissing);
    }
    let scratch = paths.xray_temp_config_dir();
    let preset = paths.xray_preset_config_dir();
    let outbound_dir = paths.xray_outbound_dir();
    let routing_dir = paths.xray_routing_dir();
    let mut base_copies: Vec<CopyStep> = Vec::new();
    let mut k: usize = 0;
    let ghost expected = base_names.deep_view().map_values(
        |n: Seq<char>| CopyStepView {
            from: spec_join(preset@, n),
            to: spec_join(scratch@, n),
        },
    );
    proof {
        assert(base_copies.deep_view() =~= expected.take(0));
    }
    while k < base_names.len()
        invariant
            k <= base_names.len(),
            expected == base_names.deep_view().map_values(
                |n: Seq<char>| CopyStepView {
                    from: spec_join(preset@, n),
                    to: spec_join(scratch@, n),
                },
            ),
            base_copies.deep_view() == expected.take(k as int),
        decreases base_names.len() - k,
    {
        let name = base_names[k].as_str();
        let step = CopyStep { from: join_path(preset.as_str(), name), to: join_path(
            scratch.as_str(),
            name,
        ) };
        proof {
            assert(step@ == expected[k as int]);
        }
        let ghost prevs = base_copies.deep_view();
        let ghost stepv = step@;
        base_copies.push(step);
        proof {
            assert(base_copies.deep_view() =~= prevs.push(stepv));
            assert(prevs.push(stepv) =~= expected.take(k + 1));
        }
        k = k + 1;
    }
    proof {
        assert(expected.take(base_names.len() as int) =~= expected);
    }
    let outbound_copy = CopyStep {
        from: join_path(outbound_dir.as_str(), outbound_sel),
        to: join_path(scratch.as_str(), "98.outbounds.json"),
    };
    let routing_copy = CopyStep {
        from: join_path(routing_dir.as_str(), routing_sel),
        to: join_path(scratch.as_str(), "99.routing.json"),
    };
    Ok(SynthesisPlan { scratch_dir: scratch, base_copies, outbound_copy, routing_copy })
}

// ------------------------------------------------------------------
// Laws.
// ------------------------------------------------------------------

/// Synthesis is deterministic: two runs over the same directories, base
/// files and selections plan exactly the same copy steps. Since execution
/// starts by erasing the scratch directory, equal plans materialize
/// byte-identical directory contents.
pub proof fn lemma_synthesize_idempotent(
    p1: SynthesisPlanView,
    p2: SynthesisPlanView,
    scratch: Seq<char>,
    preset: Seq<char>,
    outbound_dir: Seq<char>,
    routing_dir: Seq<char>,
    base_names: Seq<Seq<char>>,
    outbound_sel: Seq<char>,
    routing_sel: Seq<char>,
)
    requires
        p1 == spec_synthesis_plan(
            scratch,
            preset,
            outbound_dir,
            routing_dir,
            base_names,
            outbound_sel,
            routing_sel,
        ),
        p2 == spec_synthesis_plan(
            scratch,
            preset,
            outbound_dir,
            routing_dir,
            base_names,
            outbound_sel,
            routing_sel,
        ),
    ensures
        p1 == p2,
{
}

/// Strict lexicographic order on names, by character code: either the names
/// first differ at position `i` with the smaller code on the left, or the
/// left name is a proper prefix of the right one.
pub open spec fn lex_lt(a: Seq<char>, b: Seq<char>) -> bool {
    (exists|i: int|
        0 <= i < a.len() && i < b.len() && (a[i] as u32) < (b[i] as u32) && a.subrange(0, i)
            == b.subrange(0, i)) || (a.len() < b.len() && a == b.subrange(0, a.len() as int))
}

/// The two fixed fragment names are ordered: the outbound name sorts
/// strictly before the routing name.
pub proof fn lemma_fixed_names_ordered()
    ensures
        lex_lt(spec_outbound_file_name(), spec_routing_file_name()),
{
    reveal_strlit("98.outbounds.json");
    reveal_strlit("99.routing.json");
    let a = spec_outbound_file_name();
    let b = spec_routing_file_name();
    assert((a[1] as u32) < (b[1] as u32));
    assert(a.subrange(0, 1) =~= b.subrange(0, 1));
}

/// A name that sorts before the outbound name also sorts before the routing
/// name: the two fixed names share their first character and differ upward
/// at the second.
pub proof fn lemma_before_outbound_before_routing(n: Seq<char>)
    requires
        lex_lt(n, spec_outbound_file_name()),
    ensures
        lex_lt(n, spec_routing_file_name()),
{
    reveal_strlit("98.outbounds.json");
    reveal_strlit("99.routing.json");
    let a = spec_outbound_file_name();
    let b = spec_routing_file_name();
    if exists|i: int|
        0 <= i < n.len() && i < a.len() && (n[i] as u32) < (a[i] as u32) && n.subrange(0, i)
            == a.subrange(0, i) {
        let i = choose|i: int|
            0 <= i < n.len() && i < a.len() && (n[i] as u32) < (a[i] as u32) && n.subrange(0, i)
                == a.subrange(0, i);
        if i == 0 {
            assert((n[0] as u32) < (b[0] as u32));
            assert(n.subrange(0, 0) =~= b.subrange(0, 0));
        } else {
            assert(n.subrange(0, i)[0] == a.subrange(0, i)[0]);
            assert(n[0] == a[0]);
            if i == 1 {
                assert((n[1] as u32) < (a[1] as u32));
            } else {
                assert(n.subrange(0, i)[1] == a.subrange(0, i)[1]);
                assert(n[1] == a[1]);
            }
            assert((n[1] as u32) < (b[1] as u32));
            assert(n.subrange(0, 1) =~= b.subrange(0, 1));
            assert(0 <= 1 < n.len() && 1 < b.len() && (n[1] as u32) < (b[1] as u32));
        }
    } else {
        if n.len() == 0 {
            assert(n.len() < b.len() && n =~= b.subrange(0, 0));
        } else if n.len() == 1 {
            assert(n[0] == a[0]);
            assert(n =~= b.subrange(0, 1));
        } else {
            assert(n[1] == a[1]);
            assert((n[1] as u32) < (b[1] as u32));
            assert(n.subrange(0, 1) =~= b.subrange(0, 1));
        }
    }
}

/// Load-order guarantee: in any planned scratch directory whose base files
/// all sort before the fixed outbound name, the routing fragment's name is
/// the strictly last in sort order and the outbound fragment's name the
/// strictly second-to-last, whatever the base files are called.
pub proof fn lemma_plan_orders_fragments_last(base_names: Seq<Seq<char>>)
    requires
        forall|i: int| 0 <= i < base_names.len() ==> lex_lt(base_names[i], spec_outbound_file_name()),
    ensures
        lex_lt(spec_outbound_file_name(), spec_routing_file_name()),
        forall|i: int|
            0 <= i < base_names.len() ==> lex_lt(base_names[i], spec_outbound_file_name())
                && lex_lt(#[trigger] base_names[i], spec_routing_file_name()),
{
    lemma_fixed_names_ordered();
    assert forall|i: int| 0 <= i < base_names.len() implies lex_lt(
        base_names[i],
        spec_outbound_file_name(),
    ) && lex_lt(#[trigger] base_names[i], spec_routing_file_name()) by {
        lemma_before_outbound_before_routing(base_names[i]);
    }
}

} // verus!
