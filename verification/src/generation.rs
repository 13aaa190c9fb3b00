//! Generation attempts: what the bridge asks of the generation engine, and
//! what it does with each outcome. The engine itself runs with the caller,
//! which performs the actions listed here in order and reports back.

use crate::econ::{command_line, say_line, Econ};
use crate::seed::{debug_quoted, next_seed, quoted, seed_text, Seed, SeedView};
use vstd::prelude::*;
use vstd::string::*;

verus! {

/// The effort budget handed to the engine for one attempt.
pub const GENERATION_STEPS: usize = 100_000;

/// One request to the generation engine.
#[derive(Debug)]
pub struct GenerationAttempt {
    /// The seed of this attempt.
    pub seed: Seed,
    /// The name of the generation configuration.
    pub gen_config: String,
    /// The name of the map configuration.
    pub map_config: String,
    /// How many more attempts may follow a failure of this one.
    pub retries: usize,
}

/// The mathematical content of a [`GenerationAttempt`].
pub struct AttemptView {
    pub seed: SeedView,
    pub gen_config: Seq<char>,
    pub map_config: Seq<char>,
    pub retries: nat,
}

impl View for GenerationAttempt {
    type V = AttemptView;

    open spec fn view(&self) -> AttemptView {
        AttemptView {
            seed: self.seed@,
            gen_config: self.gen_config@,
            map_config: self.map_config@,
            retries: self.retries as nat,
        }
    }
}

/// How an attempt ended.
#[derive(Debug)]
pub enum GenerationOutcome {
    /// The engine produced a map.
    Success,
    /// The engine reported that it could not produce one.
    Failed { reason: String },
    /// The engine terminated abnormally.
    Fault,
}

/// The mathematical content of a [`GenerationOutcome`].
pub enum OutcomeView {
    Success,
    Failed { reason: Seq<char> },
    Fault,
}

impl View for GenerationOutcome {
    type V = OutcomeView;

    open spec fn view(&self) -> OutcomeView {
        match *self {
            GenerationOutcome::Success => OutcomeView::Success,
            GenerationOutcome::Failed { reason } => OutcomeView::Failed { reason: reason@ },
            GenerationOutcome::Fault => OutcomeView::Fault,
        }
    }
}

/// Something for the caller to do.
#[derive(Debug)]
pub enum Action {
    /// Write this line to the console.
    Send(String),
    /// Run the generation engine on this attempt and report the outcome to
    /// [`GenerationAttempt::resolve`].
    Generate(GenerationAttempt),
    /// Export the map that the engine just produced.
    Export,
    /// End the process with this status.
    Exit(i32),
}

/// The mathematical content of an [`Action`].
pub enum ActionView {
    Send(Seq<char>),
    Generate(AttemptView),
    Export,
    Exit(int),
}

impl View for Action {
    type V = ActionView;

    open spec fn view(&self) -> ActionView {
        match *self {
            Action::Send(line) => ActionView::Send(line@),
            Action::Generate(attempt) => ActionView::Generate(attempt@),
            Action::Export => ActionView::Export,
            Action::Exit(status) => ActionView::Exit(status as int),
        }
    }
}

/// The views of a sequence of actions.
pub open spec fn action_views(actions: Seq<Action>) -> Seq<ActionView> {
    actions.map_values(|a: Action| a@)
}

/// The message that announces an attempt.
pub open spec fn announce_text(a: AttemptView) -> Seq<char> {
    "[GEN] Generating | seed="@ + seed_text(a.seed) + " | gen_cfg="@ + debug_quoted(a.gen_config)
        + " | map_cfg="@ + debug_quoted(a.map_config)
}

/// Starting an attempt: announce it, then run the engine.
pub open spec fn start_actions(a: AttemptView) -> Seq<ActionView> {
    seq![ActionView::Send(say_line(announce_text(a))), ActionView::Generate(a)]
}

/// The attempt that follows a failed one: the next seed, one retry fewer.
pub open spec fn retry_of(a: AttemptView) -> AttemptView {
    AttemptView {
        seed: next_seed(a.seed),
        gen_config: a.gen_config,
        map_config: a.map_config,
        retries: (a.retries - 1) as nat,
    }
}

/// After a success: export the map, swap it in, reload, announce.
pub open spec fn success_actions() -> Seq<ActionView> {
    seq![
        ActionView::Export,
        ActionView::Send(command_line("change_map random_map"@)),
        ActionView::Send(command_line("reload"@)),
        ActionView::Send(command_line("say [GEN] Done..."@)),
    ]
}

/// After a fault of the engine: two alerts, and no further attempt.
pub open spec fn fault_actions() -> Seq<ActionView> {
    seq![
        ActionView::Send(say_line("[GEN] GENERATION PANICKED, THIS SHOULD NOT HAPPEN"@)),
        ActionView::Send(say_line("[GEN] please report this to iMilchshake, thanks :D"@)),
    ]
}

/// The message that reports a failed attempt.
pub open spec fn failure_line(reason: Seq<char>) -> Seq<char> {
    command_line("say [GEN] Failed due to: "@ + reason)
}

/// What follows the outcome of attempt `a`.
pub open spec fn outcome_actions(a: AttemptView, outcome: OutcomeView) -> Seq<ActionView> {
    match outcome {
        OutcomeView::Success => success_actions(),
        OutcomeView::Failed { reason } => if a.retries > 0 {
            seq![ActionView::Send(failure_line(reason))] + start_actions(retry_of(a))
        } else {
            seq![ActionView::Send(failure_line(reason))]
        },
        OutcomeView::Fault => fault_actions(),
    }
}

/// The attempt that stands `k` failures behind attempt `a`.
pub open spec fn nth_retry(a: AttemptView, k: nat) -> AttemptView
    decreases k,
{
    if k == 0 {
        a
    } else {
        retry_of(nth_retry(a, (k - 1) as nat))
    }
}

/// The action swaps content in: an export, a change of map, a reload.
pub open spec fn swaps_content(action: ActionView) -> bool {
    ||| action is Export
    ||| action == ActionView::Send(command_line("change_map random_map"@))
    ||| action == ActionView::Send(command_line("reload"@))
}

/// A reported failure never swaps content in, whatever the retries left;
/// once none is left it asks for no further attempt either, and only the
/// failure is reported.
pub proof fn lemma_failure_swaps_nothing(a: AttemptView, reason: Seq<char>)
    ensures
        forall|i: int|
            0 <= i < outcome_actions(a, OutcomeView::Failed { reason }).len() ==> !swaps_content(
                #[trigger] outcome_actions(a, OutcomeView::Failed { reason })[i],
            ),
        a.retries == 0 ==> outcome_actions(a, OutcomeView::Failed { reason }) == seq![
            ActionView::Send(failure_line(reason)),
        ],
{
    reveal_strlit("say ");
    reveal_strlit("say [GEN] Failed due to: ");
    reveal_strlit("change_map random_map");
    reveal_strlit("reload");
    let actions = outcome_actions(a, OutcomeView::Failed { reason });
    let swap = command_line("change_map random_map"@);
    let reload = command_line("reload"@);
    assert(swap[0] == 'c');
    assert(reload[0] == 'r');
    assert(failure_line(reason)[0] == 's');
    assert(say_line(announce_text(retry_of(a)))[0] == 's');
    assert forall|i: int| 0 <= i < actions.len() implies !swaps_content(#[trigger] actions[i]) by {
        if i == 0 {
            assert(actions[0] == ActionView::Send(failure_line(reason)));
        } else if i == 1 {
            assert(actions[1] == ActionView::Send(say_line(announce_text(retry_of(a)))));
        } else {
            assert(actions[2] == ActionView::Generate(retry_of(a)));
        }
    }
}

/// A fault never swaps content in and asks for no further attempt.
pub proof fn lemma_fault_stops(a: AttemptView)
    ensures
        forall|i: int|
            0 <= i < outcome_actions(a, OutcomeView::Fault).len() ==> !swaps_content(
                #[trigger] outcome_actions(a, OutcomeView::Fault)[i],
            ) && !(outcome_actions(a, OutcomeView::Fault)[i] is Generate),
{
    reveal_strlit("say ");
    reveal_strlit("change_map random_map");
    reveal_strlit("reload");
    let actions = outcome_actions(a, OutcomeView::Fault);
    assert(command_line("change_map random_map"@)[0] == 'c');
    assert(command_line("reload"@)[0] == 'r');
    assert(say_line("[GEN] GENERATION PANICKED, THIS SHOULD NOT HAPPEN"@)[0] == 's');
    assert(say_line("[GEN] please report this to iMilchshake, thanks :D"@)[0] == 's');
    assert forall|i: int| 0 <= i < actions.len() implies !swaps_content(#[trigger] actions[i])
        && !(actions[i] is Generate) by {
        if i == 0 {
            assert(actions[0] == ActionView::Send(
                say_line("[GEN] GENERATION PANICKED, THIS SHOULD NOT HAPPEN"@),
            ));
        } else {
            assert(actions[1] == ActionView::Send(
                say_line("[GEN] please report this to iMilchshake, thanks :D"@),
            ));
        }
    }
}

/// Retries walk on from the first seed: the attempt `k` failures behind
/// `a` has the seed's number plus `k`, wrapping, the same configurations,
/// and `k` retries fewer. With a budget of `r` retries there are therefore
/// at most `r + 1` attempts: the failure of the last asks for no other.
pub proof fn lemma_retry_chain(a: AttemptView, k: nat)
    requires
        k <= a.retries,
    ensures
        nth_retry(a, k).seed.number == (a.seed.number + k) % 0x1_0000_0000_0000_0000,
        k > 0 ==> nth_retry(a, k).seed.text == Seq::<char>::empty(),
        nth_retry(a, k).gen_config == a.gen_config,
        nth_retry(a, k).map_config == a.map_config,
        nth_retry(a, k).retries == a.retries - k,
        k < a.retries ==> forall|reason: Seq<char>|
            #[trigger] outcome_actions(nth_retry(a, k), OutcomeView::Failed { reason }).last()
                == ActionView::Generate(nth_retry(a, k + 1)),
        k == a.retries ==> forall|reason: Seq<char>|
            #[trigger] outcome_actions(nth_retry(a, k), OutcomeView::Failed { reason }) == seq![
                ActionView::Send(failure_line(reason)),
            ],
    decreases k,
{
    if k > 0 {
        lemma_retry_chain(a, (k - 1) as nat);
        let before = nth_retry(a, (k - 1) as nat);
        assert(nth_retry(a, k) == retry_of(before));
        let m = 0x1_0000_0000_0000_0000int;
        let n = a.seed.number as int;
        assert((n + k) % m == if (n + k - 1) % m == m - 1 {
            0
        } else {
            (n + k - 1) % m + 1
        }) by {
            vstd::arithmetic::div_mod::lemma_add_mod_noop(n + k - 1, 1, m);
            vstd::arithmetic::div_mod::lemma_small_mod(1, m as nat);
            if (n + k - 1) % m == m - 1 {
                vstd::arithmetic::div_mod::lemma_mod_self_0(m);
            } else {
                vstd::arithmetic::div_mod::lemma_small_mod(((n + k - 1) % m + 1) as nat, m as nat);
            }
        }
    } else {
        vstd::arithmetic::div_mod::lemma_small_mod(a.seed.number as nat, 0x1_0000_0000_0000_0000);
    }
    if k < a.retries {
        assert(nth_retry(a, k + 1) == retry_of(nth_retry(a, k)));
    }
}

impl GenerationAttempt {
    /// The message that announces this attempt.
    pub fn announce(&self) -> (text: String)
        ensures
            text@ == announce_text(self@),
    {
        let mut text = String::from_str("[GEN] Generating | seed=");
        text.append(self.seed.to_text().as_str());
        text.append(" | gen_cfg=");
        text.append(quoted(self.gen_config.as_str()).as_str());
        text.append(" | map_cfg=");
        text.append(quoted(self.map_config.as_str()).as_str());
        text
    }

    /// Starts the attempt: the announcement, then the request to the engine.
    pub fn begin(self) -> (actions: Vec<Action>)
        ensures
            action_views(actions@) == start_actions(self@),
    {
        let econ = Econ::new();
        let mut actions: Vec<Action> = Vec::new();
        actions.push(Action::Send(econ.rcon_say(self.announce())));
        actions.push(Action::Generate(self));
        assert(action_views(actions@) =~= start_actions(self@));
        actions
    }

    /// Decides what follows the outcome of this attempt. A success swaps
    /// the new map in. A reported failure is announced and, while retries
    /// are left, followed by a new attempt with the next seed. A fault is
    /// announced and never retried.
    pub fn resolve(&self, outcome: &GenerationOutcome) -> (actions: Vec<Action>)
        ensures
            action_views(actions@) == outcome_actions(self@, outcome@),
    {
        let econ = Econ::new();
        let mut actions: Vec<Action> = Vec::new();
        match outcome {
            GenerationOutcome::Success => {
                actions.push(Action::Export);
                actions.push(
                    Action::Send(econ.send_rcon_cmd(String::from_str("change_map random_map"))),
                );
                actions.push(Action::Send(econ.send_rcon_cmd(String::from_str("reload"))));
                actions.push(
                    Action::Send(econ.send_rcon_cmd(String::from_str("say [GEN] Done..."))),
                );
                assert(action_views(actions@) =~= success_actions());
            },
            GenerationOutcome::Failed { reason } => {
                let mut report = String::from_str("say [GEN] Failed due to: ");
                report.append(reason.as_str());
                actions.push(Action::Send(econ.send_rcon_cmd(report)));
                if self.retries > 0 {
                    let next = GenerationAttempt {
                        seed: self.seed.next_attempt(),
                        gen_config: self.gen_config.clone(),
                        map_config: self.map_config.clone(),
                        retries: self.retries - 1,
                    };
                    assert(next@ == retry_of(self@));
                    let ghost before = actions@;
                    let mut started = next.begin();
                    let ghost tail = started@;
                    actions.append(&mut started);
                    assert(action_views(before + tail) =~= action_views(before) + action_views(
                        tail,
                    ));
                }
                assert(action_views(actions@) =~= outcome_actions(self@, outcome@));
            },
            GenerationOutcome::Fault => {
                actions.push(
                    Action::Send(
                        econ.rcon_say(
                            String::from_str("[GEN] GENERATION PANICKED, THIS SHOULD NOT HAPPEN"),
                        ),
                    ),
                );
                actions.push(
                    Action::Send(
                        econ.rcon_say(
                            String::from_str("[GEN] please report this to iMilchshake, thanks :D"),
                        ),
                    ),
                );
                assert(action_views(actions@) =~= fault_actions());
            },
        }
        actions
    }
}

} // verus!
