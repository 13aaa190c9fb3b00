//! The bridge's session: authentication, the pending vote, the active map
//! configuration, and what each piece of console text leads to.

use crate::econ::{chunk_text, command_line, say_line, ConsoleEvent, Econ};
use crate::generation::{action_views, start_actions, Action, ActionView, AttemptView,
    GenerationAttempt};
use crate::random::Random;
use crate::seed::{no_reason, seed_of_reason, Seed, SeedView};
use crate::text::{chars_of, is_whitespace, is_whitespace_char, occurs_at, same_text, starts_with,
    string_of_range};
use crate::vote::{event_views, parse_votes, vote_events, VoteEvent, VoteEventView};
use vstd::prelude::*;
use vstd::string::*;

verus! {

/// A vote that was called and is not resolved yet.
#[derive(Debug)]
pub struct Vote {
    pub _player_name: String,
    pub vote_name: String,
    pub vote_reason: String,
}

/// The mathematical content of a [`Vote`].
pub struct VoteView {
    pub player: Seq<char>,
    pub name: Seq<char>,
    pub reason: Seq<char>,
}

impl View for Vote {
    type V = VoteView;

    open spec fn view(&self) -> VoteView {
        VoteView { player: self._player_name@, name: self.vote_name@, reason: self.vote_reason@ }
    }
}

/// The start arguments that the session reads.
#[derive(Debug)]
pub struct BridgeArgs {
    /// The console's password.
    pub econ_pass: String,
    /// How many times a failed generation is retried.
    pub generation_retries: usize,
}

/// Keeps track of the bridge's state.
pub struct ServerBridge {
    /// The console link.
    pub econ: Econ,
    /// The vote that is running, if one is.
    pub pending_vote: Option<Vote>,
    /// The names of the available generation configurations.
    pub gen_configs: Vec<String>,
    /// The names of the available map configurations.
    pub map_configs: Vec<String>,
    /// The name of the selected map configuration.
    pub current_map_config: String,
    /// The name of the generation configuration of the first map.
    pub initial_gen_config: String,
    /// The start arguments.
    pub args: BridgeArgs,
}

/// The mathematical content of a [`ServerBridge`].
pub struct BridgeView {
    pub authed: bool,
    pub pending: Option<VoteView>,
    pub gen_configs: Seq<Seq<char>>,
    pub map_configs: Seq<Seq<char>>,
    pub current_map_config: Seq<char>,
    pub initial_gen_config: Seq<char>,
    pub password: Seq<char>,
    pub retries: nat,
}

/// The names held in a registry.
pub open spec fn names_of(registry: Seq<String>) -> Seq<Seq<char>> {
    registry.map_values(|name: String| name@)
}

impl View for ServerBridge {
    type V = BridgeView;

    open spec fn view(&self) -> BridgeView {
        BridgeView {
            authed: self.econ.authed,
            pending: match self.pending_vote {
                Some(vote) => Some(vote@),
                None => None,
            },
            gen_configs: names_of(self.gen_configs@),
            map_configs: names_of(self.map_configs@),
            current_map_config: self.current_map_config@,
            initial_gen_config: self.initial_gen_config@,
            password: self.args.econ_pass@,
            retries: self.args.generation_retries as nat,
        }
    }
}

/// A state and the actions that led to it.
pub struct Step {
    pub next: BridgeView,
    pub actions: Seq<ActionView>,
}

/// The seed of the first map, generated right after authentication.
pub const BOOTSTRAP_SEED: u64 = 1337;

/// The offset of the first whitespace character at or after `from`, or the
/// length of the text where there is none.
pub open spec fn token_end(s: Seq<char>, from: int) -> int
    decreases s.len() - from,
{
    if from < 0 || from >= s.len() {
        s.len() as int
    } else if is_whitespace(s[from]) {
        from
    } else {
        token_end(s, from + 1)
    }
}

/// The leading token of a vote's name: what stands before its first
/// whitespace character.
pub open spec fn vote_kind(name: Seq<char>) -> Seq<char> {
    name.take(token_end(name, 0))
}

/// The preset that a vote's name selects: what stands behind its first
/// whitespace character, and nothing where there is none.
pub open spec fn vote_preset(name: Seq<char>) -> Seq<char> {
    if token_end(name, 0) < name.len() {
        name.skip(token_end(name, 0) + 1)
    } else {
        Seq::empty()
    }
}

/// The report of a vote that passed while none was pending.
pub open spec fn no_pending_text() -> Seq<char> {
    "[VOTE] Vote Success, but no pending vote! unhandled vote type?"@
}

/// The report of a preset name that no registry holds.
pub open spec fn unknown_preset_text(preset: Seq<char>) -> Seq<char> {
    "[GEN] config does not exist: "@ + preset
}

/// The report of a vote whose leading token names no action.
pub open spec fn unknown_action_text(name: Seq<char>) -> Seq<char> {
    "[VOTE] unhandled vote type: "@ + name
}

/// The report of a changed layout.
pub open spec fn layout_changed_text(preset: Seq<char>) -> Seq<char> {
    "[GEN] changed layout to "@ + preset
}

/// One broadcast, and nothing else.
pub open spec fn say_only(message: Seq<char>) -> Seq<ActionView> {
    seq![ActionView::Send(say_line(message))]
}

/// The attempt that a session starts with a given seed and configuration.
pub open spec fn attempt_of(b: BridgeView, seed: SeedView, gen_config: Seq<char>) -> AttemptView {
    AttemptView { seed, gen_config, map_config: b.current_map_config, retries: b.retries }
}

/// What a passed vote leads to. The pending vote is taken. A `generate`
/// vote starts an attempt with the seed that its reason stands for and the
/// generation configuration that its name selects; a `change_layout` vote
/// selects the map configuration; anything that cannot be carried out is
/// reported and changes nothing else. `entropy` is the seed's number where
/// the reason names none.
pub open spec fn passed_step(b: BridgeView, entropy: u64) -> Step {
    match b.pending {
        None => Step { next: b, actions: say_only(no_pending_text()) },
        Some(vote) => {
            let taken = BridgeView { pending: None, ..b };
            let kind = vote_kind(vote.name);
            let preset = vote_preset(vote.name);
            if kind == "generate"@ {
                if b.gen_configs.contains(preset) {
                    Step {
                        next: taken,
                        actions: start_actions(
                            attempt_of(b, seed_of_reason(vote.reason, entropy), preset),
                        ),
                    }
                } else {
                    Step { next: taken, actions: say_only(unknown_preset_text(preset)) }
                }
            } else if kind == "change_layout"@ {
                if b.map_configs.contains(preset) {
                    Step {
                        next: BridgeView { current_map_config: preset, ..taken },
                        actions: say_only(layout_changed_text(preset)),
                    }
                } else {
                    Step { next: taken, actions: say_only(unknown_preset_text(preset)) }
                }
            } else {
                Step { next: taken, actions: say_only(unknown_action_text(vote.name)) }
            }
        },
    }
}

/// `step` is what a passed vote leads to from `b`, for some entropy.
pub open spec fn is_passed_step(b: BridgeView, step: Step) -> bool {
    exists|entropy: u64| step == #[trigger] passed_step(b, entropy)
}

/// Whether a passed vote would draw entropy: a `generate` vote whose reason
/// names no seed.
pub open spec fn wants_entropy(b: BridgeView) -> bool {
    match b.pending {
        None => false,
        Some(vote) => vote_kind(vote.name) == "generate"@ && vote.reason == no_reason(),
    }
}

/// What one vote event leads to.
pub open spec fn event_step(b: BridgeView, event: VoteEventView, entropy: u64) -> Step {
    match event {
        VoteEventView::Passed => passed_step(b, entropy),
        VoteEventView::Failed => Step {
            next: BridgeView { pending: None, ..b },
            actions: Seq::empty(),
        },
        VoteEventView::Started { player, vote_name, reason } => Step {
            next: BridgeView {
                pending: Some(VoteView { player, name: vote_name, reason }),
                ..b
            },
            actions: Seq::empty(),
        },
    }
}

/// What a sequence of vote events leads to, one after the other;
/// `entropy[i]` is at the disposal of the event at `i`.
pub open spec fn events_step(b: BridgeView, events: Seq<VoteEventView>, entropy: Seq<u64>) -> Step
    decreases events.len(),
{
    if events.len() == 0 {
        Step { next: b, actions: Seq::empty() }
    } else {
        let before = events_step(b, events.drop_last(), entropy.drop_last());
        let last = event_step(before.next, events.last(), entropy.last());
        Step { next: last.next, actions: before.actions + last.actions }
    }
}

/// What console text leads to before authentication: the password prompt
/// is answered, a confirmation authenticates and starts the first
/// generation, a rejection ends the process, anything else is ignored.
pub open spec fn auth_step(b: BridgeView, data: Seq<char>) -> Step {
    if data == "Enter password:\n"@ {
        Step { next: b, actions: seq![ActionView::Send(command_line(b.password))] }
    } else if occurs_at(data, 0, "Authentication successful"@) {
        Step {
            next: BridgeView { authed: true, ..b },
            actions: start_actions(
                attempt_of(
                    b,
                    SeedView { number: BOOTSTRAP_SEED, text: Seq::empty() },
                    b.initial_gen_config,
                ),
            ),
        }
    } else if occurs_at(data, 0, "Wrong password"@) {
        Step { next: b, actions: seq![ActionView::Exit(1)] }
    } else {
        Step { next: b, actions: Seq::empty() }
    }
}

/// `step` is what the vote events announced in `data` lead to from `b`,
/// for some entropy at the disposal of each.
pub open spec fn is_votes_step(b: BridgeView, data: Seq<char>, step: Step) -> bool {
    exists|entropy: Seq<u64>|
        entropy.len() == vote_events(data).len() && step == #[trigger] events_step(
            b,
            vote_events(data),
            entropy,
        )
}

/// A passed `change_layout` vote never asks for a generation: it takes
/// the pending vote and broadcasts one message, and it selects the named
/// map configuration where the registry holds it and leaves the selection
/// alone where it does not. Nothing else of the session changes.
pub proof fn lemma_change_layout_never_generates(b: BridgeView, entropy: u64)
    requires
        b.pending is Some,
        vote_kind(b.pending->0.name) == "change_layout"@,
    ensures
        forall|i: int|
            0 <= i < passed_step(b, entropy).actions.len() ==> !(
            #[trigger] passed_step(b, entropy).actions[i] is Generate),
        passed_step(b, entropy).actions.len() == 1,
        passed_step(b, entropy).actions[0] is Send,
        passed_step(b, entropy).next == (BridgeView {
            pending: None,
            current_map_config: if b.map_configs.contains(vote_preset(b.pending->0.name)) {
                vote_preset(b.pending->0.name)
            } else {
                b.current_map_config
            },
            ..b
        }),
{
    reveal_strlit("generate");
    reveal_strlit("change_layout");
    assert("generate"@.len() != "change_layout"@.len());
}

/// A failed vote and a newly called vote lead to no action; a newly
/// called vote replaces whatever was pending.
pub proof fn lemma_one_pending_vote(b: BridgeView, event: VoteEventView, entropy: u64)
    requires
        !(event is Passed),
    ensures
        event_step(b, event, entropy).actions.len() == 0,
        event is Failed ==> event_step(b, event, entropy).next.pending is None,
        event matches VoteEventView::Started { player, vote_name, reason } ==> event_step(
            b,
            event,
            entropy,
        ).next.pending == Some(VoteView { player, name: vote_name, reason }),
{
}

/// Finds the end of the leading token of `text`.
pub fn find_token_end(text: &[char]) -> (end: usize)
    ensures
        end == token_end(text@, 0),
        end <= text.len(),
{
    let mut k: usize = 0;
    while k < text.len() && !is_whitespace_char(text[k])
        invariant
            k <= text.len(),
            token_end(text@, 0) == token_end(text@, k as int),
        decreases text.len() - k,
    {
        k = k + 1;
    }
    k
}

/// Splits a vote's name into its leading token and the preset behind it.
pub fn split_vote_name(name: &String) -> (parts: (String, String))
    ensures
        parts.0@ == vote_kind(name@),
        parts.1@ == vote_preset(name@),
{
    let chars = chars_of(name.as_str());
    let end: usize = find_token_end(&chars);
    let kind = string_of_range(&chars, 0, end);
    let preset = if end < chars.len() {
        string_of_range(&chars, end + 1, chars.len())
    } else {
        String::new()
    };
    (kind, preset)
}

/// Tests whether a registry holds a name.
pub fn has_name(registry: &Vec<String>, name: &String) -> (found: bool)
    ensures
        found == names_of(registry@).contains(name@),
{
    let mut i: usize = 0;
    while i < registry.len()
        invariant
            i <= registry.len(),
            forall|j: int| 0 <= j < i ==> names_of(registry@)[j] != name@,
        decreases registry.len() - i,
    {
        if registry[i] == *name {
            assert(names_of(registry@)[i as int] == name@);
            return true;
        }
        i = i + 1;
    }
    false
}

/// Tests whether a text is exactly a literal.
fn is_text(text: &String, literal: &str) -> (same: bool)
    ensures
        same == (text@ == literal@),
{
    let a = chars_of(text.as_str());
    let b = chars_of(literal);
    same_text(&a, &b)
}

/// Tests whether a text begins with a literal.
fn begins_with(text: &String, literal: &str) -> (found: bool)
    ensures
        found == occurs_at(text@, 0, literal@),
{
    let a = chars_of(text.as_str());
    let b = chars_of(literal);
    starts_with(&a, &b)
}

/// The text `prefix` followed by `rest`.
fn join(prefix: &str, rest: &String) -> (text: String)
    ensures
        text@ == prefix@ + rest@,
{
    let mut text = String::from_str(prefix);
    text.append(rest.as_str());
    text
}

impl ServerBridge {
    /// A session that has not authenticated, with no vote pending.
    pub fn new(
        args: BridgeArgs,
        gen_configs: Vec<String>,
        map_configs: Vec<String>,
        current_map_config: String,
        initial_gen_config: String,
    ) -> (bridge: ServerBridge)
        ensures
            bridge@ == (BridgeView {
                authed: false,
                pending: None,
                gen_configs: names_of(gen_configs@),
                map_configs: names_of(map_configs@),
                current_map_config: current_map_config@,
                initial_gen_config: initial_gen_config@,
                password: args.econ_pass@,
                retries: args.generation_retries as nat,
            }),
    {
        ServerBridge {
            econ: Econ::new(),
            pending_vote: None,
            gen_configs,
            map_configs,
            current_map_config,
            initial_gen_config,
            args,
        }
    }

    /// One broadcast as the only action.
    fn say(&self, message: String) -> (actions: Vec<Action>)
        ensures
            action_views(actions@) == say_only(message@),
    {
        let mut actions: Vec<Action> = Vec::new();
        actions.push(Action::Send(self.econ.rcon_say(message)));
        assert(action_views(actions@) =~= say_only(message@));
        actions
    }

    /// Starts a generation attempt with the selected map configuration:
    /// the announcement, then the request to the engine.
    pub fn generate_and_change_map(
        &self,
        seed: &Seed,
        gen_config: &String,
        retries: usize,
    ) -> (actions: Vec<Action>)
        ensures
            action_views(actions@) == start_actions(
                AttemptView {
                    seed: seed@,
                    gen_config: gen_config@,
                    map_config: self@.current_map_config,
                    retries: retries as nat,
                },
            ),
    {
        let attempt = GenerationAttempt {
            seed: seed.duplicate(),
            gen_config: gen_config.clone(),
            map_config: self.current_map_config.clone(),
            retries,
        };
        attempt.begin()
    }

    /// Checks console text for the authentication dialogue.
    pub fn check_auth(&mut self, data: &String) -> (actions: Vec<Action>)
        ensures
            final(self)@ == auth_step(old(self)@, data@).next,
            action_views(actions@) == auth_step(old(self)@, data@).actions,
    {
        if is_text(data, "Enter password:\n") {
            let mut actions: Vec<Action> = Vec::new();
            actions.push(Action::Send(self.econ.send_rcon_cmd(self.args.econ_pass.clone())));
            assert(action_views(actions@) =~= auth_step(old(self)@, data@).actions);
            actions
        } else if begins_with(data, "Authentication successful") {
            self.econ.authed = true;
            let seed = Seed::from_u64(BOOTSTRAP_SEED);
            self.generate_and_change_map(
                &seed,
                &self.initial_gen_config,
                self.args.generation_retries,
            )
        } else if begins_with(data, "Wrong password") {
            let mut actions: Vec<Action> = Vec::new();
            actions.push(Action::Exit(1));
            assert(action_views(actions@) =~= auth_step(old(self)@, data@).actions);
            actions
        } else {
            let actions: Vec<Action> = Vec::new();
            assert(action_views(actions@) =~= auth_step(old(self)@, data@).actions);
            actions
        }
    }

    /// Carries out the pending vote after it passed, with `entropy` as the
    /// seed's number where the vote's reason names none.
    pub fn handle_pending_vote_with(&mut self, entropy: u64) -> (actions: Vec<Action>)
        ensures
            final(self)@ == passed_step(old(self)@, entropy).next,
            action_views(actions@) == passed_step(old(self)@, entropy).actions,
    {
        match self.pending_vote.take() {
            None => self.say(
                String::from_str("[VOTE] Vote Success, but no pending vote! unhandled vote type?"),
            ),
            Some(vote) => {
                let (kind, preset) = split_vote_name(&vote.vote_name);
                if is_text(&kind, "generate") {
                    if has_name(&self.gen_configs, &preset) {
                        let seed = Seed::from_reason_with(&vote.vote_reason, entropy);
                        self.generate_and_change_map(&seed, &preset, self.args.generation_retries)
                    } else {
                        self.say(join("[GEN] config does not exist: ", &preset))
                    }
                } else if is_text(&kind, "change_layout") {
                    if has_name(&self.map_configs, &preset) {
                        let actions = self.say(join("[GEN] changed layout to ", &preset));
                        self.current_map_config = preset;
                        actions
                    } else {
                        self.say(join("[GEN] config does not exist: ", &preset))
                    }
                } else {
                    self.say(join("[VOTE] unhandled vote type: ", &vote.vote_name))
                }
            },
        }
    }

    /// Tests whether carrying out the pending vote would draw entropy.
    pub fn needs_entropy(&self) -> (needed: bool)
        ensures
            needed == wants_entropy(self@),
    {
        match &self.pending_vote {
            None => false,
            Some(vote) => {
                let (kind, _preset) = split_vote_name(&vote.vote_name);
                is_text(&kind, "generate") && is_text(&vote.vote_reason, "No reason given")
            },
        }
    }

    /// Carries out the pending vote after it passed. Entropy is drawn only
    /// for a `generate` vote whose reason names no seed; for every other
    /// pending vote, and for none, the result is fixed.
    pub fn handle_pending_vote(&mut self) -> (actions: Vec<Action>)
        ensures
            is_passed_step(
                old(self)@,
                (Step { next: final(self)@, actions: action_views(actions@) }),
            ),
            !wants_entropy(old(self)@) ==> (Step {
                next: final(self)@,
                actions: action_views(actions@),
            }) == passed_step(old(self)@, 0),
    {
        let entropy: u64 = if self.needs_entropy() {
            Random::get_random_u64()
        } else {
            0
        };
        self.handle_pending_vote_with(entropy)
    }

    /// Applies one vote event, with `entropy` as the seed's number where a
    /// passed vote's reason names none.
    pub fn handle_event_with(&mut self, event: &VoteEvent, entropy: u64) -> (actions: Vec<Action>)
        ensures
            final(self)@ == event_step(old(self)@, event@, entropy).next,
            action_views(actions@) == event_step(old(self)@, event@, entropy).actions,
    {
        match event {
            VoteEvent::VotePassed => self.handle_pending_vote_with(entropy),
            VoteEvent::VoteFailed => {
                self.pending_vote = None;
                let actions: Vec<Action> = Vec::new();
                assert(action_views(actions@) =~= Seq::<ActionView>::empty());
                actions
            },
            VoteEvent::VoteStarted { player, vote_name, reason } => {
                self.pending_vote = Some(
                    Vote {
                        _player_name: player.clone(),
                        vote_name: vote_name.clone(),
                        vote_reason: reason.clone(),
                    },
                );
                let actions: Vec<Action> = Vec::new();
                assert(action_views(actions@) =~= Seq::<ActionView>::empty());
                actions
            },
        }
    }

    /// Checks console text for vote announcements and applies each in
    /// order: a called vote becomes the pending one, a failed vote clears
    /// it, a passed vote is carried out.
    pub fn check_vote(&mut self, data: &String) -> (actions: Vec<Action>)
        ensures
            is_votes_step(
                old(self)@,
                data@,
                (Step { next: final(self)@, actions: action_views(actions@) }),
            ),
    {
        let events = parse_votes(data);
        let mut actions: Vec<Action> = Vec::new();
        let ghost start = self@;
        let ghost all = vote_events(data@);
        let ghost mut used: Seq<u64> = Seq::empty();
        let mut i: usize = 0;
        assert(action_views(actions@) =~= Seq::<ActionView>::empty());
        while i < events.len()
            invariant
                i <= events.len(),
                event_views(events@) == all,
                used.len() == i,
                self@ == events_step(start, all.take(i as int), used).next,
                action_views(actions@) == events_step(start, all.take(i as int), used).actions,
            decreases events.len() - i,
        {
            let event = &events[i];
            let passed = match event {
                VoteEvent::VotePassed => true,
                _ => false,
            };
            let entropy: u64 = if passed && self.needs_entropy() {
                Random::get_random_u64()
            } else {
                0
            };
            let ghost before = actions@;
            let mut more = self.handle_event_with(event, entropy);
            let ghost tail = more@;
            actions.append(&mut more);
            proof {
                assert(all.take(i + 1).drop_last() == all.take(i as int));
                assert(all.take(i + 1).last() == event@);
                assert(used.push(entropy).drop_last() == used);
                assert(action_views(before + tail) =~= action_views(before) + action_views(tail));
                used = used.push(entropy);
            }
            i = i + 1;
        }
        proof {
            assert(all.take(i as int) == all);
            assert(Step { next: self@, actions: action_views(actions@) } == events_step(
                start,
                vote_events(data@),
                used,
            ));
        }
        actions
    }

    /// Takes one event from the console connection: data is decoded and
    /// checked for the authentication dialogue until the session is
    /// authenticated, for votes afterwards; any other event changes nothing.
    pub fn receive(&mut self, event: &ConsoleEvent) -> (actions: Vec<Action>)
        ensures
            match *event {
                ConsoleEvent::Other => final(self)@ == old(self)@ && actions@.len() == 0,
                ConsoleEvent::Data(bytes) => if old(self)@.authed {
                    is_votes_step(
                        old(self)@,
                        chunk_text(bytes@),
                        (Step { next: final(self)@, actions: action_views(actions@) }),
                    )
                } else {
                    (Step { next: final(self)@, actions: action_views(actions@) }) == auth_step(
                        old(self)@,
                        chunk_text(bytes@),
                    )
                },
            },
    {
        match self.econ.read(event) {
            None => Vec::new(),
            Some(data) => {
                if !self.econ.authed {
                    self.check_auth(&data)
                } else {
                    self.check_vote(&data)
                }
            },
        }
    }
}

} // verus!
