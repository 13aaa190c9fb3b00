use econ_bridge::bridge::{split_vote_name, has_name, BridgeArgs, ServerBridge, Vote};
use econ_bridge::econ::ConsoleEvent;
use econ_bridge::generation::{Action, GenerationAttempt, GenerationOutcome, GENERATION_STEPS};
use econ_bridge::seed::Seed;
use econ_bridge::vote::VoteEvent;

const STAMP: &str = "2024-01-01 10:00:00 I chat: *** ";

fn names(list: &[&str]) -> Vec<String> {
    list.iter().map(|name| String::from(*name)).collect()
}

fn bridge(retries: usize) -> ServerBridge {
    ServerBridge::new(
        BridgeArgs { econ_pass: String::from("secret"), generation_retries: retries },
        names(&["easy", "hard", "main"]),
        names(&["small", "large maze"]),
        String::from("small"),
        String::from("main"),
    )
}

fn authed(retries: usize) -> ServerBridge {
    let mut session = bridge(retries);
    session.econ.authed = true;
    session
}

fn data(text: &str) -> ConsoleEvent {
    ConsoleEvent::Data(text.as_bytes().to_vec())
}

fn called(name: &str, reason: &str) -> String {
    format!("{}'Tee' called vote to option '{}' ({})\n", STAMP, name, reason)
}

fn passed() -> String {
    format!("{}Vote passed\n", STAMP)
}

fn failed() -> String {
    format!("{}Vote failed\n", STAMP)
}

/// The lines sent, and the attempts asked for, in order; an export shows as
/// the line `<export>` and an exit as `<exit N>`.
fn lines(actions: &[Action]) -> Vec<String> {
    actions
        .iter()
        .map(|action| match action {
            Action::Send(line) => line.clone(),
            Action::Generate(attempt) => format!(
                "<generate {} {:?} {} {} {}>",
                attempt.seed.seed_u64,
                attempt.seed.seed_str,
                attempt.gen_config,
                attempt.map_config,
                attempt.retries
            ),
            Action::Export => String::from("<export>"),
            Action::Exit(status) => format!("<exit {}>", status),
        })
        .collect()
}

fn attempt_in(actions: Vec<Action>) -> GenerationAttempt {
    let mut found = Vec::new();
    for action in actions {
        if let Action::Generate(attempt) = action {
            found.push(attempt);
        }
    }
    assert_eq!(found.len(), 1);
    found.pop().unwrap()
}

fn announce(seed: &str, gen_config: &str, map_config: &str) -> String {
    format!(
        "say [GEN] Generating | seed={} | gen_cfg={:?} | map_cfg={:?}\n",
        seed, gen_config, map_config
    )
}

#[test]
fn the_password_prompt_is_answered() {
    let mut session = bridge(10);
    let actions = session.receive(&data("Enter password:\n"));
    assert_eq!(lines(&actions), vec!["secret\n"]);
    assert!(!session.econ.authed);
    assert_eq!(lines(&session.check_auth(&String::from("Enter password:"))).len(), 0);
    assert_eq!(lines(&session.check_auth(&String::from("Enter password:\n\n"))).len(), 0);
    assert!(!session.econ.authed);
}

#[test]
fn a_confirmation_authenticates_and_generates_the_first_map() {
    let mut session = bridge(10);
    let actions = session.receive(&data("Authentication successful. External console access granted.\n"));
    assert!(session.econ.authed);
    assert_eq!(
        lines(&actions),
        vec![
            announce("Seed { seed_u64: 1337, seed_str: \"\" }", "main", "small"),
            String::from("<generate 1337 \"\" main small 10>"),
        ]
    );
}

#[test]
fn a_rejection_ends_the_process() {
    let mut session = bridge(10);
    let actions = session.receive(&data("Wrong password 1/3.\n"));
    assert_eq!(lines(&actions), vec!["<exit 1>"]);
    assert!(!session.econ.authed);
}

#[test]
fn other_text_is_ignored_before_authentication() {
    let mut session = bridge(10);
    assert_eq!(session.receive(&data("hello\n")).len(), 0);
    assert_eq!(session.receive(&data(" Authentication successful\n")).len(), 0);
    assert_eq!(session.receive(&data(&passed())).len(), 0);
    assert_eq!(session.receive(&data(&called("generate easy", "1"))).len(), 0);
    assert_eq!(session.receive(&ConsoleEvent::Other).len(), 0);
    assert!(!session.econ.authed);
    assert!(session.pending_vote.is_none());
}

#[test]
fn a_called_vote_becomes_the_pending_one() {
    let mut session = authed(10);
    assert_eq!(session.receive(&data(&called("generate easy", "42"))).len(), 0);
    let vote = session.pending_vote.as_ref().unwrap();
    assert_eq!(vote._player_name, "Tee");
    assert_eq!(vote.vote_name, "generate easy");
    assert_eq!(vote.vote_reason, "42");
    assert_eq!(session.receive(&data(&called("change_layout small", "why not"))).len(), 0);
    let vote = session.pending_vote.as_ref().unwrap();
    assert_eq!(vote.vote_name, "change_layout small");
    assert_eq!(vote.vote_reason, "why not");
}

#[test]
fn a_failed_vote_is_discarded() {
    let mut session = authed(10);
    session.receive(&data(&called("generate easy", "42")));
    assert_eq!(session.receive(&data(&failed())).len(), 0);
    assert!(session.pending_vote.is_none());
    assert_eq!(session.receive(&data(&failed())).len(), 0);
    let actions = session.receive(&data(&passed()));
    assert_eq!(
        lines(&actions),
        vec!["say [VOTE] Vote Success, but no pending vote! unhandled vote type?\n"]
    );
}

#[test]
fn a_passed_generate_vote_starts_one_attempt() {
    let mut session = authed(10);
    let chunk = format!("{}{}", called("generate easy", "42"), passed());
    let actions = session.receive(&data(&chunk));
    assert_eq!(
        lines(&actions),
        vec![
            announce("Seed { seed_u64: 42, seed_str: \"\" }", "easy", "small"),
            String::from("<generate 42 \"\" easy small 10>"),
        ]
    );
    assert!(session.pending_vote.is_none());
    assert_eq!(session.current_map_config, "small");
}

#[test]
fn a_textual_reason_is_hashed_into_the_seed() {
    let mut session = authed(3);
    session.receive(&data(&called("generate hard", "my map")));
    let actions = session.receive(&data(&passed()));
    let number = seahash::hash(b"my map");
    assert_eq!(
        lines(&actions),
        vec![
            announce(&format!("Seed {{ seed_u64: {}, seed_str: \"my map\" }}", number), "hard", "small"),
            format!("<generate {} \"my map\" hard small 3>", number),
        ]
    );
}

#[test]
fn a_vote_without_reason_draws_a_fresh_seed() {
    let mut session = bridge(2);
    assert_eq!(lines(&session.receive(&data("Enter password:\n"))), vec!["secret\n"]);
    let first = attempt_in(session.receive(&data("Authentication successful\n")));
    assert_eq!(first.seed.seed_u64, 1337);
    session.receive(&data(&called("generate easy", "No reason given")));
    let actions = session.receive(&data(&passed()));
    assert_eq!(actions.len(), 2);
    let shown = lines(&actions);
    let mut attempt = attempt_in(actions);
    assert_eq!(attempt.gen_config, "easy");
    assert_eq!(attempt.map_config, "small");
    assert_eq!(attempt.seed.seed_str, "");
    assert_eq!(attempt.retries, 2);
    let seed = attempt.seed.seed_u64;
    assert_eq!(
        shown[0],
        announce(&format!("Seed {{ seed_u64: {}, seed_str: \"\" }}", seed), "easy", "small")
    );
    let mut seeds = vec![seed];
    let failure = GenerationOutcome::Failed { reason: String::from("no path") };
    loop {
        let after = attempt.resolve(&failure);
        assert_eq!(lines(&after)[0], "say [GEN] Failed due to: no path\n");
        let mut next = Vec::new();
        for action in after {
            match action {
                Action::Generate(attempt) => next.push(attempt),
                Action::Send(line) => {
                    assert!(line.starts_with("say "));
                }
                other => panic!("unexpected {:?}", other),
            }
        }
        match next.pop() {
            Some(following) => {
                seeds.push(following.seed.seed_u64);
                attempt = following;
            }
            None => break,
        }
    }
    assert_eq!(seeds, vec![seed, seed.wrapping_add(1), seed.wrapping_add(2)]);
    assert_eq!(session.current_map_config, "small");
}

#[test]
fn a_given_entropy_is_the_seed_of_a_vote_without_reason() {
    let mut session = authed(1);
    session.receive(&data(&called("generate easy", "No reason given")));
    assert!(session.needs_entropy());
    let actions = session.handle_pending_vote_with(555);
    assert_eq!(
        lines(&actions),
        vec![
            announce("Seed { seed_u64: 555, seed_str: \"\" }", "easy", "small"),
            String::from("<generate 555 \"\" easy small 1>"),
        ]
    );
    assert!(!session.needs_entropy());
    session.receive(&data(&called("change_layout small", "No reason given")));
    assert!(!session.needs_entropy());
    session.receive(&data(&called("generate easy", "7")));
    assert!(!session.needs_entropy());
}

#[test]
fn an_unknown_preset_is_reported() {
    let mut session = authed(10);
    session.receive(&data(&called("generate nightmare", "42")));
    let actions = session.receive(&data(&passed()));
    assert_eq!(lines(&actions), vec!["say [GEN] config does not exist: nightmare\n"]);
    assert!(session.pending_vote.is_none());
    session.receive(&data(&called("change_layout huge", "42")));
    let actions = session.receive(&data(&passed()));
    assert_eq!(lines(&actions), vec!["say [GEN] config does not exist: huge\n"]);
    assert_eq!(session.current_map_config, "small");
    session.receive(&data(&called("generate", "42")));
    let actions = session.handle_pending_vote();
    assert_eq!(lines(&actions), vec!["say [GEN] config does not exist: \n"]);
}

#[test]
fn an_unknown_action_is_reported() {
    let mut session = authed(10);
    for name in ["kick Tee", "generated easy", "generate_easy", " generate easy", "change_layouts small"] {
        session.receive(&data(&called(name, "42")));
        let actions = session.receive(&data(&passed()));
        assert_eq!(lines(&actions), vec![format!("say [VOTE] unhandled vote type: {}\n", name)]);
        assert!(session.pending_vote.is_none());
        assert_eq!(session.current_map_config, "small");
    }
}

#[test]
fn a_layout_vote_selects_the_map_configuration_and_generates_nothing() {
    let mut session = authed(10);
    session.receive(&data(&called("change_layout large maze", "bigger")));
    let actions = session.receive(&data(&passed()));
    assert_eq!(lines(&actions), vec!["say [GEN] changed layout to large maze\n"]);
    assert_eq!(session.current_map_config, "large maze");
    assert!(session.pending_vote.is_none());
    assert!(session.econ.authed);
    session.receive(&data(&called("generate easy", "1")));
    let actions = session.receive(&data(&passed()));
    assert_eq!(lines(&actions)[1], "<generate 1 \"\" easy large maze 10>");
}

#[test]
fn a_chunk_of_several_votes_is_applied_in_order() {
    let mut session = authed(0);
    let chunk = format!(
        "{}{}{}{}{}{}{}{}",
        passed(),
        called("generate easy", "1"),
        called("change_layout large maze", "x"),
        passed(),
        called("generate hard", "2"),
        passed(),
        called("generate easy", "3"),
        failed(),
    );
    let actions = session.check_vote(&chunk);
    assert_eq!(
        lines(&actions),
        vec![
            String::from("say [VOTE] Vote Success, but no pending vote! unhandled vote type?\n"),
            String::from("say [GEN] changed layout to large maze\n"),
            announce("Seed { seed_u64: 2, seed_str: \"\" }", "hard", "large maze"),
            String::from("<generate 2 \"\" hard large maze 0>"),
        ]
    );
    assert!(session.pending_vote.is_none());
}

#[test]
fn single_events_are_applied_as_given() {
    let mut session = authed(4);
    let event = VoteEvent::VoteStarted {
        player: String::from("p"),
        vote_name: String::from("generate main"),
        reason: String::from("No reason given"),
    };
    assert_eq!(session.handle_event_with(&event, 1).len(), 0);
    let actions = session.handle_event_with(&VoteEvent::VotePassed, 77);
    assert_eq!(lines(&actions)[1], "<generate 77 \"\" main small 4>");
    session.pending_vote = Some(Vote {
        _player_name: String::from("p"),
        vote_name: String::from("generate main"),
        vote_reason: String::from("9"),
    });
    assert_eq!(session.handle_event_with(&VoteEvent::VoteFailed, 3).len(), 0);
    assert!(session.pending_vote.is_none());
}

#[test]
fn a_success_swaps_the_map_in() {
    let attempt = attempt_in(authed(5).generate_and_change_map(
        &Seed::from_u64(3),
        &String::from("easy"),
        5,
    ));
    let actions = attempt.resolve(&GenerationOutcome::Success);
    assert_eq!(
        lines(&actions),
        vec!["<export>", "change_map random_map\n", "reload\n", "say [GEN] Done...\n"]
    );
}

#[test]
fn a_failure_is_retried_with_the_next_seed() {
    let attempt = GenerationAttempt {
        seed: Seed::from_string(&String::from("start")),
        gen_config: String::from("easy"),
        map_config: String::from("small"),
        retries: 2,
    };
    let number = attempt.seed.seed_u64;
    let actions = attempt.resolve(&GenerationOutcome::Failed { reason: String::from("stuck") });
    assert_eq!(
        lines(&actions),
        vec![
            String::from("say [GEN] Failed due to: stuck\n"),
            announce(
                &format!("Seed {{ seed_u64: {}, seed_str: \"\" }}", number.wrapping_add(1)),
                "easy",
                "small"
            ),
            format!("<generate {} \"\" easy small 1>", number.wrapping_add(1)),
        ]
    );
}

#[test]
fn an_exhausted_budget_leaves_the_content_alone() {
    let session = authed(0);
    let attempt =
        attempt_in(session.generate_and_change_map(&Seed::from_u64(u64::MAX), &String::from("easy"), 0));
    let actions = attempt.resolve(&GenerationOutcome::Failed { reason: String::from("stuck") });
    assert_eq!(lines(&actions), vec!["say [GEN] Failed due to: stuck\n"]);
    assert_eq!(session.current_map_config, "small");
    let one = GenerationAttempt {
        seed: Seed::from_u64(u64::MAX),
        gen_config: String::from("easy"),
        map_config: String::from("small"),
        retries: 1,
    };
    let actions = one.resolve(&GenerationOutcome::Failed { reason: String::new() });
    assert_eq!(lines(&actions)[2], "<generate 0 \"\" easy small 0>");
    for line in lines(&actions) {
        assert!(line != "<export>" && line != "change_map random_map\n" && line != "reload\n");
    }
}

#[test]
fn a_fault_is_announced_and_not_retried() {
    let attempt = GenerationAttempt {
        seed: Seed::from_u64(1),
        gen_config: String::from("easy"),
        map_config: String::from("small"),
        retries: 10,
    };
    let actions = attempt.resolve(&GenerationOutcome::Fault);
    assert_eq!(
        lines(&actions),
        vec![
            "say [GEN] GENERATION PANICKED, THIS SHOULD NOT HAPPEN\n",
            "say [GEN] please report this to iMilchshake, thanks :D\n",
        ]
    );
}

#[test]
fn an_attempt_is_announced_with_its_seed_and_configurations() {
    let attempt = GenerationAttempt {
        seed: Seed::from_string(&String::from("a \"quoted\" seed")),
        gen_config: String::from("easy"),
        map_config: String::from("large maze"),
        retries: 1,
    };
    assert_eq!(
        attempt.announce(),
        format!(
            "[GEN] Generating | seed={:?} | gen_cfg={:?} | map_cfg={:?}",
            attempt.seed, "easy", "large maze"
        )
    );
    let actions = attempt.begin();
    assert_eq!(actions.len(), 2);
    assert!(matches!(actions[0], Action::Send(_)));
    assert!(matches!(actions[1], Action::Generate(_)));
    assert_eq!(GENERATION_STEPS, 100000);
}

#[test]
fn a_vote_name_splits_at_its_first_whitespace() {
    for (name, kind, preset) in [
        ("generate easy", "generate", "easy"),
        ("generate  easy", "generate", " easy"),
        ("generate easy mode", "generate", "easy mode"),
        ("generate", "generate", ""),
        ("generate ", "generate", ""),
        (" generate", "", "generate"),
        ("", "", ""),
        ("change_layout\tsmall", "change_layout", "small"),
        ("a\u{a0}b", "a", "b"),
        ("a\u{3000}b c", "a", "b c"),
    ] {
        let (k, p) = split_vote_name(&String::from(name));
        assert_eq!((k.as_str(), p.as_str()), (kind, preset), "name {:?}", name);
        let mut parts = name.splitn(2, char::is_whitespace);
        assert_eq!(parts.next().unwrap(), kind);
        assert_eq!(parts.next().unwrap_or(""), preset);
    }
}

#[test]
fn a_registry_finds_its_names() {
    let registry = names(&["easy", "hard", ""]);
    assert!(has_name(&registry, &String::from("easy")));
    assert!(has_name(&registry, &String::from("hard")));
    assert!(has_name(&registry, &String::new()));
    assert!(!has_name(&registry, &String::from("eas")));
    assert!(!has_name(&registry, &String::from("easy ")));
    assert!(!has_name(&Vec::new(), &String::from("easy")));
}
