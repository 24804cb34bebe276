//! The engine process supervisor.
//!
//! `Xray` owns the lifecycle of the proxy engine process: it terminates a
//! stale instance recorded by an earlier run, plans a launch from a fresh
//! configuration synthesis, and composes reload as terminate-then-launch.
//! The process table is consulted and the stale process killed through the
//! trusted wrappers at the end of this file; spawning the engine and all
//! file traffic (reading the pid record, executing the plan, writing the
//! new record) belong to the embedding program, which hands the values in
//! and out as plain data. A ghost event log witnesses the order of the
//! supervisor's actions.

use vstd::prelude::*;
use vstd::string::*;
use vstd::arithmetic::div_mod::lemma_fundamental_div_mod;
use crate::codec::{is_digit, digit_val, spec_digits_end, spec_digits_val, spec_match_at, match_at};
use crate::config::IConfig;
use crate::path::AppPath;
use crate::synth::{ConfigError, SynthesisPlan, synthesize, spec_synthesis_plan};

verus! {

// ------------------------------------------------------------------
// The pid record's format.
// ------------------------------------------------------------------

/// The character for one decimal digit.
pub open spec fn spec_digit_char(d: nat) -> char {
    if d == 0 {
        '0'
    } else if d == 1 {
        '1'
    } else if d == 2 {
        '2'
    } else if d == 3 {
        '3'
    } else if d == 4 {
        '4'
    } else if d == 5 {
        '5'
    } else if d == 6 {
        '6'
    } else if d == 7 {
        '7'
    } else if d == 8 {
        '8'
    } else {
        '9'
    }
}

/// The decimal rendering of a process id, most significant digit first.
pub open spec fn spec_decimal(n: nat) -> Seq<char>
    decreases n,
{
    if n < 10 {
        seq![spec_digit_char(n)]
    } else {
        spec_decimal(n / 10).push(spec_digit_char(n % 10))
    }
}

/// The process id a pid record denotes: the whole record must be a run of
/// decimal digits whose value fits a process id.
pub open spec fn spec_parse_pid(s: Seq<char>) -> Option<u32> {
    if s.len() > 0 && spec_digits_end(s, 0) == s.len() && spec_digits_val(s, 0, s.len(), 0)
        <= 0xFFFF_FFFF {
        Some(spec_digits_val(s, 0, s.len(), 0) as u32)
    } else {
        None
    }
}

proof fn lemma_decimal_digits(n: nat)
    ensures
        spec_decimal(n).len() > 0,
        forall|i: int| 0 <= i < spec_decimal(n).len() ==> is_digit(#[trigger] spec_decimal(n)[i]),
    decreases n,
{
    if n < 10 {
        assert(is_digit(spec_digit_char(n)));
    } else {
        lemma_decimal_digits(n / 10);
        assert(is_digit(spec_digit_char(n % 10)));
        assert(forall|i: int|
            0 <= i < spec_decimal(n / 10).len() ==> #[trigger] spec_decimal(n)[i] == spec_decimal(
                n / 10,
            )[i]);
    }
}

proof fn lemma_all_digits_end(s: Seq<char>, i: nat)
    requires
        i <= s.len(),
        forall|j: int| 0 <= j < s.len() ==> is_digit(#[trigger] s[j]),
    ensures
        spec_digits_end(s, i) == s.len(),
    decreases s.len() - i,
{
    if i < s.len() {
        lemma_all_digits_end(s, i + 1);
    }
}

proof fn lemma_digits_val_snoc(s: Seq<char>, c: char, i: nat, acc: nat)
    requires
        i <= s.len(),
    ensures
        spec_digits_val(s.push(c), i, s.len() + 1, acc) == spec_digits_val(s, i, s.len(), acc) * 10
            + digit_val(c),
    decreases s.len() - i,
{
    if i < s.len() {
        assert(s.push(c)[i as int] == s[i as int]);
        lemma_digits_val_snoc(s, c, i + 1, acc * 10 + digit_val(s[i as int]));
    } else {
        assert(s.push(c)[i as int] == c);
        assert(spec_digits_val(s.push(c), i + 1, s.len() + 1, acc * 10 + digit_val(c)) == acc * 10
            + digit_val(c));
    }
}

proof fn lemma_decimal_val(n: nat)
    ensures
        spec_digits_val(spec_decimal(n), 0, spec_decimal(n).len(), 0) == n,
    decreases n,
{
    if n < 10 {
        let s = spec_decimal(n);
        assert(s[0] == spec_digit_char(n));
        assert(spec_digits_val(s, 1, 1, digit_val(spec_digit_char(n))) == digit_val(
            spec_digit_char(n),
        ));
        assert(digit_val(spec_digit_char(n)) == n);
    } else {
        lemma_decimal_val(n / 10);
        lemma_digits_val_snoc(spec_decimal(n / 10), spec_digit_char(n % 10), 0, 0);
        lemma_fundamental_div_mod(n as int, 10);
        assert(digit_val(spec_digit_char(n % 10)) == n % 10);
    }
}

/// The pid record written for a process parses back to that very process
/// id: what `launch` records, a later `terminate_stale` finds.
pub proof fn lemma_pid_record_round_trip(p: u32)
    ensures
        spec_parse_pid(spec_decimal(p as nat)) == Some(p),
{
    lemma_decimal_digits(p as nat);
    lemma_all_digits_end(spec_decimal(p as nat), 0);
    lemma_decimal_val(p as nat);
}

/// Renders the decimal digits of `n` onto `out`.
fn push_decimal(out: &mut String, n: u32)
    ensures
        final(out)@ == old(out)@ + spec_decimal(n as nat),
    decreases n,
{
    if n < 10 {
        let c = digit_char(n);
        out.push(c);
        proof {
            assert(out@ =~= old(out)@ + spec_decimal(n as nat));
        }
    } else {
        let q = n / 10;
        let r = n % 10;
        push_decimal(out, q);
        let c = digit_char(r);
        out.push(c);
        proof {
            assert(out@ =~= old(out)@ + spec_decimal(n as nat));
        }
    }
}

/// The character for one decimal digit.
fn digit_char(d: u32) -> (r: char)
    requires
        d < 10,
    ensures
        r == spec_digit_char(d as nat),
{
    if d == 0 {
        '0'
    } else if d == 1 {
        '1'
    } else if d == 2 {
        '2'
    } else if d == 3 {
        '3'
    } else if d == 4 {
        '4'
    } else if d == 5 {
        '5'
    } else if d == 6 {
        '6'
    } else if d == 7 {
        '7'
    } else if d == 8 {
        '8'
    } else {
        '9'
    }
}

/// The exact content of the pid record for a launched process.
pub fn pid_record_content(pid: u32) -> (r: String)
    ensures
        r@ == spec_decimal(pid as nat),
{
    let mut out = String::new();
    push_decimal(&mut out, pid);
    proof {
        assert(out@ =~= spec_decimal(pid as nat));
    }
    out
}

/// Parses a pid record.
pub fn parse_pid(s: &str) -> (r: Option<u32>)
    ensures
        r == spec_parse_pid(s@),
{
    let n = s.unicode_len();
    let mut j: usize = 0;
    let mut acc: u64 = 0;
    let mut oversize = false;
    while j < n && digit_at_pid(s, j)
        invariant
            j <= n,
            n == s@.len(),
            spec_digits_end(s@, 0) == spec_digits_end(s@, j as nat),
            !oversize ==> acc <= 0xFFFF_FFFF && spec_digits_val(s@, 0, spec_digits_end(s@, 0), 0)
                == spec_digits_val(s@, j as nat, spec_digits_end(s@, 0), acc as nat),
            oversize ==> spec_digits_val(s@, 0, spec_digits_end(s@, 0), 0) > 0xFFFF_FFFF,
            forall|t: int| 0 <= t < j ==> is_digit(s@[t]),
        decreases n - j,
    {
        let c = s.get_char(j);
        proof {
            assert(is_digit(s@[j as int]));
            crate::codec::lemma_digits_end_bounds(s@, j as nat + 1);
        }
        let d: u64 = (c as u64) - 48;
        if !oversize {
            let next: u64 = acc * 10 + d;
            if next > 0xFFFF_FFFF {
                proof {
                    lemma_pid_val_oversize(
                        s@,
                        j as nat + 1,
                        spec_digits_end(s@, 0),
                        (acc * 10 + d) as nat,
                    );
                }
                oversize = true;
            } else {
                acc = next;
            }
        }
        j = j + 1;
    }
    proof {
        assert(spec_digits_end(s@, j as nat) == j);
    }
    if j != n || n == 0 {
        return None;
    }
    if oversize {
        return None;
    }
    Some(acc as u32)
}

/// The character at `j` is a decimal digit.
fn digit_at_pid(s: &str, j: usize) -> (r: bool)
    requires
        j < s@.len(),
    ensures
        r == is_digit(s@[j as int]),
{
    let c = s.get_char(j);
    '0' <= c && c <= '9'
}

/// A digit-run value only grows as more digits are taken in.
proof fn lemma_pid_val_oversize(s: Seq<char>, i: nat, j: nat, acc: nat)
    requires
        acc > 0xFFFF_FFFF,
    ensures
        spec_digits_val(s, i, j, acc) > 0xFFFF_FFFF,
    decreases j - i,
{
    if i < j && i < s.len() {
        lemma_pid_val_oversize(s, i + 1, j, acc * 10 + digit_val(s[i as int]));
    }
}

// ------------------------------------------------------------------
// Engine process identification.
// ------------------------------------------------------------------

/// `needle` occurs somewhere in `hay`.
pub open spec fn spec_contains(hay: Seq<char>, needle: Seq<char>) -> bool {
    exists|i: int|
        0 <= i && i + needle.len() <= hay.len() && #[trigger] hay.subrange(i, i + needle.len())
            == needle
}

/// Whether `needle` occurs in `hay`.
pub fn str_contains(hay: &str, needle: &str) -> (r: bool)
    ensures
        r == spec_contains(hay@, needle@),
{
    let n = hay.unicode_len();
    let m = needle.unicode_len();
    if m > n {
        return false;
    }
    if m == 0 {
        proof {
            assert(hay@.subrange(0, 0 + needle@.len() as int) =~= needle@);
            assert(spec_contains(hay@, needle@));
        }
        return true;
    }
    let limit = n - m;
    let mut i: usize = 0;
    while i <= limit
        invariant
            1 <= m <= n,
            n == hay@.len(),
            m == needle@.len(),
            limit == n - m,
            i <= limit + 1,
            forall|t: nat| t < i ==> !spec_match_at(hay@, t, needle@),
        decreases n - i,
    {
        if match_at(hay, n, i, needle) {
            proof {
                assert(hay@.subrange(i as int, i + needle@.len() as int) == needle@);
            }
            return true;
        }
        i = i + 1;
    }
    proof {
        if spec_contains(hay@, needle@) {
            let w = choose|w: int|
                0 <= w && w + needle@.len() <= hay@.len() && #[trigger] hay@.subrange(
                    w,
                    w + needle@.len(),
                ) == needle@;
            assert(spec_match_at(hay@, w as nat, needle@));
            assert(!spec_match_at(hay@, w as nat, needle@));
        }
    }
    false
}

/// A live process is recognized as the supervised engine when its
/// executable name holds the engine binary's name.
pub open spec fn spec_is_engine_name(name: Seq<char>) -> bool {
    spec_contains(name, "xray"@)
}

/// Whether a process name identifies the supervised engine.
pub fn is_engine_name(name: &str) -> (r: bool)
    ensures
        r == spec_is_engine_name(name@),
{
    str_contains(name, "xray")
}

// ------------------------------------------------------------------
// The supervisor.
// ------------------------------------------------------------------

/// What one terminate-stale pass found and did. None of these is an error:
/// the supervisor tolerates running on a machine where no earlier instance
/// ever ran.
#[derive(Clone, Copy, Debug, PartialEq, Eq)]
pub enum TermOutcome {
    /// No pid record existed.
    NoRecord,
    /// The record existed but did not hold a process id.
    BadRecord,
    /// The recorded process is not in the live process table.
    NotRunning,
    /// A process with the recorded id is alive but is not the engine.
    NameMismatch,
    /// The recorded engine process was told to terminate.
    Killed(u32),
}

/// What a terminate-stale pass decides from the record's content and the
/// process table's answer: only a live process whose name marks it as the
/// engine is killed; every other finding is "nothing to do". The decision
/// is total — terminating never errors.
pub open spec fn spec_term_decision(record: Option<Seq<char>>, live: Option<Seq<char>>) -> TermOutcome {
    match record {
        None => TermOutcome::NoRecord,
        Some(s) => match spec_parse_pid(s) {
            None => TermOutcome::BadRecord,
            Some(p) => match live {
                None => TermOutcome::NotRunning,
                Some(name) => if spec_is_engine_name(name) {
                    TermOutcome::Killed(p)
                } else {
                    TermOutcome::NameMismatch
                },
            },
        },
    }
}

/// The terminate-stale decision on given values: the record's content and
/// the process table's answer for the recorded id. Each finding is reached
/// here on plain arguments, wherever the table's answer came from.
pub fn term_decision(record: Option<&String>, live_name: Option<&String>) -> (r: TermOutcome)
    ensures
        r == spec_term_decision(record.deep_view(), live_name.deep_view()),
{
    match record {
        None => TermOutcome::NoRecord,
        Some(s) => {
            match parse_pid(s.as_str()) {
                None => TermOutcome::BadRecord,
                Some(pid) => {
                    match live_name {
                        None => TermOutcome::NotRunning,
                        Some(nm) => {
                            if is_engine_name(nm.as_str()) {
                                TermOutcome::Killed(pid)
                            } else {
                                TermOutcome::NameMismatch
                            }
                        },
                    }
                },
            }
        },
    }
}

/// One entry of the supervisor's action log.
pub ghost enum XrayEvent {
    Terminated(TermOutcome),
    Launched,
}

/// The environment handed to the spawned engine: the static asset
/// directory and the synthesized configuration directory.
#[derive(Debug)]
pub struct LaunchPlan {
    pub synthesis: SynthesisPlan,
    pub asset_env: (String, String),
    pub confdir_env: (String, String),
    pub binary: String,
}

/// The engine process supervisor. Its ghost `events` log witnesses the
/// order of its actions: reload appends the terminate outcome before the
/// launch entry, and the embedding program can only spawn from a plan that
/// reload has already produced.
pub struct Xray {
    pub events: Ghost<Seq<XrayEvent>>,
}

/// Both selected fragments are present in their catalogs.
pub open spec fn spec_fragments_listed(
    outbound_names: Seq<Seq<char>>,
    routing_names: Seq<Seq<char>>,
    outbound_sel: Seq<char>,
    routing_sel: Seq<char>,
) -> bool {
    crate::synth::spec_name_listed(outbound_names, outbound_sel) && crate::synth::spec_name_listed(
        routing_names,
        routing_sel,
    )
}

/// The one fragment-resolution error a failed launch owes: the outbound
/// selection is checked first, the routing selection second.
pub open spec fn spec_fragment_error(
    e: ConfigError,
    outbound_names: Seq<Seq<char>>,
    routing_names: Seq<Seq<char>>,
    outbound_sel: Seq<char>,
    routing_sel: Seq<char>,
) -> bool {
    (e == ConfigError::OutboundFragmentMissing && !crate::synth::spec_name_listed(
        outbound_names,
        outbound_sel,
    )) || (e == ConfigError::RoutingFragmentMissing && crate::synth::spec_name_listed(
        outbound_names,
        outbound_sel,
    ) && !crate::synth::spec_name_listed(routing_names, routing_sel))
}

/// The exact launch plan a successful launch owes for the given directories,
/// base files and selections: the full synthesis plan, the two environment
/// variables, and the engine binary's name.
pub open spec fn spec_loaded_plan(
    plan: LaunchPlan,
    paths: AppPath,
    base_names: Seq<Seq<char>>,
    outbound_sel: Seq<char>,
    routing_sel: Seq<char>,
) -> bool {
    &&& plan.synthesis@ == spec_synthesis_plan(
        paths.spec_app_home_dir() + "/confdir"@,
        paths.spec_app_core_dir() + "/confdir"@,
        paths.spec_app_home_dir() + "/outbound"@,
        paths.spec_app_home_dir() + "/routing"@,
        base_names,
        outbound_sel,
        routing_sel,
    )
    &&& plan.asset_env.0@ == "XRAY_LOCATION_ASSET"@
    &&& plan.asset_env.1@ == paths.spec_app_core_dir() + "/asset"@
    &&& plan.confdir_env.0@ == "XRAY_LOCATION_CONFDIR"@
    &&& plan.confdir_env.1@ == paths.spec_app_home_dir() + "/confdir"@
    &&& plan.binary@ == "xray"@
}

impl Xray {
    pub fn new() -> (r: Xray)
        ensures
            r.events@ == Seq::<XrayEvent>::empty(),
    {
        Xray { events: Ghost(Seq::empty()) }
    }

    /// Terminates a stale engine instance recorded by an earlier run. The
    /// record's content is handed in by the embedding program (absent when
    /// the record file does not exist). An absent or unparsable record, a
    /// dead process, or a live process that is not the engine are all
    /// "nothing to do", never errors; only a live process whose name marks
    /// it as the engine is killed.
    pub fn kill_old(&mut self, record: Option<&String>) -> (r: TermOutcome)
        ensures
            exists|live: Option<Seq<char>>| r == #[trigger] spec_term_decision(record.deep_view(), live),
            match record {
                None => r == TermOutcome::NoRecord,
                Some(s) => match spec_parse_pid(s@) {
                    None => r == TermOutcome::BadRecord,
                    Some(p) => r == TermOutcome::NotRunning || r == TermOutcome::NameMismatch || r
                        == TermOutcome::Killed(p),
                },
            },
            final(self).events@ == old(self).events@.push(XrayEvent::Terminated(r)),
    {
        let live_name: Option<String> = match record {
            None => None,
            Some(s) => {
                match parse_pid(s.as_str()) {
                    None => None,
                    Some(pid) => live_process_name(pid),
                }
            },
        };
        let outcome = term_decision(record, live_name.as_ref());
        match outcome {
            TermOutcome::Killed(pid) => {
                kill_by_pid(pid);
            },
            _ => {},
        }
        proof {
            self.events@ = self.events@.push(XrayEvent::Terminated(outcome));
        }
        outcome
    }

    /// Plans a launch: a fresh synthesis of the configuration directory,
    /// the two environment variables pointing the engine at its assets and
    /// at that directory, and the engine binary's name. The embedding
    /// program executes the plan, spawns the binary with that environment,
    /// writes `pid_record_content` of the child's id to the pid record, and
    /// drains the child's output. Fails exactly when a selected fragment is
    /// not in its catalog.
    pub fn load(
        &mut self,
        paths: &AppPath,
        config: &IConfig,
        base_names: &Vec<String>,
        outbound_names: &Vec<String>,
        routing_names: &Vec<String>,
    ) -> (r: Result<LaunchPlan, ConfigError>)
        ensures
            r is Ok <==> spec_fragments_listed(
                outbound_names.deep_view(),
                routing_names.deep_view(),
                config.active_outbound@,
                config.active_routing@,
            ),
            match r {
                Ok(plan) => spec_fragments_listed(
                    outbound_names.deep_view(),
                    routing_names.deep_view(),
                    config.active_outbound@,
                    config.active_routing@,
                ) && spec_loaded_plan(
                    plan,
                    *paths,
                    base_names.deep_view(),
                    config.active_outbound@,
                    config.active_routing@,
                ) && final(self).events@ == old(self).events@.push(XrayEvent::Launched),
                Err(e) => final(self).events@ == old(self).events@ && spec_fragment_error(
                    e,
                    outbound_names.deep_view(),
                    routing_names.deep_view(),
                    config.active_outbound@,
                    config.active_routing@,
                ),
            },
    {
        let outbound_sel = config.active_outbound();
        let routing_sel = config.active_routing();
        let plan = match synthesize(
            paths,
            base_names,
            outbound_names,
            routing_names,
            outbound_sel.as_str(),
            routing_sel.as_str(),
        ) {
            Ok(p) => p,
            Err(e) => {
                return Err(e);
            },
        };
        let asset_dir = paths.xray_preset_asset_dir();
        let conf_dir = paths.xray_temp_config_dir();
        proof {
            self.events@ = self.events@.push(XrayEvent::Launched);
        }
        Ok(
            LaunchPlan {
                synthesis: plan,
                asset_env: (String::from_str("XRAY_LOCATION_ASSET"), asset_dir),
                confdir_env: (String::from_str("XRAY_LOCATION_CONFDIR"), conf_dir),
                binary: String::from_str("xray"),
            },
        )
    }

    /// Reload: terminate the stale instance, then plan the launch, in that
    /// order, propagating the launch failure as a unit. Terminating never
    /// fails, so reload succeeds exactly when both selected fragments
    /// resolve; it then hands back the terminate outcome and the full launch
    /// plan. The terminate pass fully completes — the kill, if any, is
    /// already issued — before any part of the launch is planned, so the old
    /// process is gone or mismatched before a new one can appear.
    pub fn reload_xray(
        &mut self,
        record: Option<&String>,
        paths: &AppPath,
        config: &IConfig,
        base_names: &Vec<String>,
        outbound_names: &Vec<String>,
        routing_names: &Vec<String>,
    ) -> (r: Result<(TermOutcome, LaunchPlan), ConfigError>)
        ensures
            r is Ok <==> spec_fragments_listed(
                outbound_names.deep_view(),
                routing_names.deep_view(),
                config.active_outbound@,
                config.active_routing@,
            ),
            match r {
                Ok(pair) => {
                    &&& spec_loaded_plan(
                        pair.1,
                        *paths,
                        base_names.deep_view(),
                        config.active_outbound@,
                        config.active_routing@,
                    )
                    &&& exists|live: Option<Seq<char>>|
                        pair.0 == #[trigger] spec_term_decision(record.deep_view(), live)
                    &&& match record {
                        None => pair.0 == TermOutcome::NoRecord,
                        Some(s) => match spec_parse_pid(s@) {
                            None => pair.0 == TermOutcome::BadRecord,
                            Some(p) => pair.0 == TermOutcome::NotRunning || pair.0
                                == TermOutcome::NameMismatch || pair.0 == TermOutcome::Killed(p),
                        },
                    }
                    &&& final(self).events@ == old(self).events@.push(
                        XrayEvent::Terminated(pair.0),
                    ).push(XrayEvent::Launched)
                },
                Err(e) => {
                    &&& spec_fragment_error(
                        e,
                        outbound_names.deep_view(),
                        routing_names.deep_view(),
                        config.active_outbound@,
                        config.active_routing@,
                    )
                    &&& final(self).events@.len() == old(self).events@.len() + 1
                    &&& final(self).events@.drop_last() == old(self).events@
                    &&& final(self).events@.last() is Terminated
                },
            },
    {
        let outcome = self.kill_old(record);
        proof {
            assert(self.events@ == old(self).events@.push(XrayEvent::Terminated(outcome)));
        }
        match self.load(paths, config, base_names, outbound_names, routing_names) {
            Ok(plan) => {
                proof {
                    assert(self.events@ == old(self).events@.push(
                        XrayEvent::Terminated(outcome),
                    ).push(XrayEvent::Launched));
                }
                Ok((outcome, plan))
            },
            Err(e) => {
                proof {
                    assert(self.events@ == old(self).events@.push(XrayEvent::Terminated(outcome)));
                    assert(self.events@.drop_last() =~= old(self).events@);
                    assert(self.events@.last() == XrayEvent::Terminated(outcome));
                }
                Err(e)
            },
        }
    }
}

// ------------------------------------------------------------------
// Laws.
// ------------------------------------------------------------------

/// Reload orders terminate before launch: in the log a successful reload
/// appends, every launch entry is immediately preceded by that reload's
/// terminate entry — no engine is launched before the stale one was dealt
/// with.
pub proof fn lemma_reload_terminate_precedes_launch(pre: Seq<XrayEvent>, outcome: TermOutcome)
    ensures
        ({
            let post = pre.push(XrayEvent::Terminated(outcome)).push(XrayEvent::Launched);
            forall|j: int|
                pre.len() <= j < post.len() && (#[trigger] post[j]) is Launched ==> j > pre.len()
                    && post[j - 1] == XrayEvent::Terminated(outcome)
        }),
{
    let post = pre.push(XrayEvent::Terminated(outcome)).push(XrayEvent::Launched);
    assert(post[pre.len() as int] == XrayEvent::Terminated(outcome));
    assert(post[pre.len() as int + 1] == XrayEvent::Launched);
}

/// Terminating twice in a row never errors and the second pass is a no-op:
/// the decision is total (every finding is an outcome, none a failure), and
/// once the first pass has killed the recorded process, the table no longer
/// lists it, so the second pass decides to kill nothing.
pub proof fn lemma_second_terminate_noop(record: Option<Seq<char>>)
    ensures
        forall|p: u32| spec_term_decision(record, None) != TermOutcome::Killed(p),
{
}

// ------------------------------------------------------------------
// Trusted wrappers around the process table.
// ------------------------------------------------------------------

/// Relies on sysinfo's System::refresh_processes and System::process: the
/// executable name of the live process with the given id, or nothing when
/// no such process is alive. The result depends on the machine's process
/// table at the moment of the call, so nothing more is promised of it.
#[verifier::external_body]
fn live_process_name(pid: u32) -> (r: Option<String>)
{
    let target = sysinfo::Pid::from_u32(pid);
    let mut system = sysinfo::System::new();
    system.refresh_processes(sysinfo::ProcessesToUpdate::Some(&[target]), true);
    system.process(target).map(|p| p.name().to_string_lossy().to_string())
}

/// Relies on sysinfo's Process::kill: asks the OS to terminate the process
/// with the given id, reporting whether the signal was sent. Its effect is
/// on the OS; nothing more is promised of it.
#[verifier::external_body]
fn kill_by_pid(pid: u32) -> (r: bool)
{
    let target = sysinfo::Pid::from_u32(pid);
    let mut system = sysinfo::System::new();
    system.refresh_processes(sysinfo::ProcessesToUpdate::Some(&[target]), true);
    system.process(target).map(|p| p.kill()).unwrap_or(false)
}

} // verus!
