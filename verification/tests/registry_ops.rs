//! Exercises the poll registry: creation, option management, voting,
//! and the error paths, each against concrete expected values.

use voting_system::poll::VoteError;
use voting_system::registry::AddOptionRequest;
use voting_system::registry::CreatePollInput;
use voting_system::registry::CreatePollRequest;
use voting_system::registry::Registry;
use voting_system::registry::RegistryError;
use voting_system::registry::VoteRequest;

fn two_option_input(question: &str) -> CreatePollInput {
    CreatePollRequest {
        question: question.to_string(),
        options: vec!["A".to_string(), "B".to_string()],
    }
    .into_input()
}

#[test]
fn create_assigns_id_and_numbered_zero_tallies() {
    let mut reg = Registry::new(1);
    let poll = reg.create(two_option_input("Pick one")).unwrap();
    assert_eq!(poll.id, 1);
    assert_eq!(poll.question, "Pick one");
    assert!(poll.is_open);
    assert_eq!(poll.options.len(), 2);
    assert_eq!(poll.options[0].id, 1);
    assert_eq!(poll.options[0].label, "A");
    assert_eq!(poll.options[0].votes, 0);
    assert_eq!(poll.options[1].id, 2);
    assert_eq!(poll.options[1].label, "B");
    assert_eq!(poll.options[1].votes, 0);
    assert!(poll.voters.is_empty());
}

#[test]
fn generated_ids_are_sequential_and_never_reused() {
    let mut reg = Registry::new(2);
    let first = reg.create(two_option_input("first")).unwrap();
    let second = reg.create(two_option_input("second")).unwrap();
    assert_eq!(first.id, 2);
    assert_eq!(second.id, 3);
}

#[test]
fn allocator_advances_past_explicit_ids() {
    let mut reg = Registry::new(1);
    let mut explicit = two_option_input("explicit");
    explicit.id = Some(10);
    assert_eq!(reg.create(explicit).unwrap().id, 10);
    // the next drawn identifier skips past the explicit one
    let auto = reg.create(two_option_input("auto")).unwrap();
    assert_eq!(auto.id, 11);
}

#[test]
fn exhausted_id_space_is_detectable() {
    let mut reg = Registry::new(1);
    assert!(reg.alloc.can_allocate());
    let mut explicit = two_option_input("top");
    explicit.id = Some(u32::MAX);
    assert!(reg.create(explicit).is_ok());
    assert!(!reg.alloc.can_allocate());
}

#[test]
fn create_with_existing_id_changes_nothing() {
    let mut reg = Registry::new(1);
    let mut input = two_option_input("original");
    input.id = Some(7);
    reg.create(input).unwrap();

    let mut clash = CreatePollRequest {
        question: "usurper".to_string(),
        options: vec!["Z".to_string()],
    }
    .into_input();
    clash.id = Some(7);
    let r = reg.create(clash);
    assert!(matches!(r, Err(RegistryError::AlreadyExists)));
    // the existing poll's fields are untouched
    let kept = reg.get(7).unwrap();
    assert_eq!(kept.question, "original");
    assert_eq!(kept.options.len(), 2);
    assert_eq!(kept.options[0].label, "A");
}

#[test]
fn create_without_labels_yields_no_options() {
    let mut reg = Registry::new(1);
    let input = CreatePollInput {
        id: None,
        question: "empty".to_string(),
        is_open: None,
        options: None,
    };
    let poll = reg.create(input).unwrap();
    assert!(poll.options.is_empty());
    // a vote into a poll without options can only miss
    let r = reg.apply_vote(poll.id, 1, 5);
    assert!(matches!(r, Err(VoteError::OptionNotFound)));
}

#[test]
fn get_and_list_return_snapshots() {
    let mut reg = Registry::new(1);
    reg.create(two_option_input("one")).unwrap();
    reg.create(two_option_input("two")).unwrap();
    assert!(reg.get(99).is_none());
    let polls = reg.list();
    assert_eq!(polls.len(), 2);
    // mutating the returned copies leaves the registry untouched
    let mut copy = reg.get(1).unwrap();
    copy.question.push('!');
    copy.options[0].votes = 99;
    assert_eq!(reg.get(1).unwrap().question, "one");
    assert_eq!(reg.get(1).unwrap().options[0].votes, 0);
}

#[test]
fn first_vote_counts_second_is_rejected() {
    let mut reg = Registry::new(1);
    reg.create(two_option_input("Pick one")).unwrap();
    let req = VoteRequest { poll_id: 1, option_id: 1, voter_id: 42 };
    let snap = reg.apply_vote(req.poll_id, req.option_id, req.voter_id).unwrap();
    assert_eq!(snap.options[0].votes, 1);
    assert_eq!(snap.options[1].votes, 0);
    assert_eq!(snap.voters.len(), 1);

    let again = reg.apply_vote(1, 1, 42);
    assert!(matches!(again, Err(VoteError::AlreadyVoted)));
    let kept = reg.get(1).unwrap();
    assert_eq!(kept.options[0].votes, 1);
    assert_eq!(kept.voters.len(), 1);
}

#[test]
fn repeat_voter_rejected_before_option_lookup() {
    let mut reg = Registry::new(1);
    reg.create(two_option_input("Pick one")).unwrap();
    reg.apply_vote(1, 1, 42).unwrap();
    // a repeat voter gets the same error whatever option they target,
    // even one that does not exist
    let r = reg.apply_vote(1, 99, 42);
    assert!(matches!(r, Err(VoteError::AlreadyVoted)));
}

#[test]
fn closed_poll_rejects_every_voter_unchanged() {
    let mut reg = Registry::new(1);
    let mut input = two_option_input("closed");
    input.is_open = Some(false);
    reg.create(input).unwrap();
    // a first-time voter targeting an existing option is still rejected
    let r = reg.apply_vote(1, 1, 7);
    assert!(matches!(r, Err(VoteError::PollClosed)));
    // even an unknown option reports the closed poll first
    let r2 = reg.apply_vote(1, 99, 8);
    assert!(matches!(r2, Err(VoteError::PollClosed)));
    let kept = reg.get(1).unwrap();
    assert_eq!(kept.options[0].votes, 0);
    assert_eq!(kept.options[1].votes, 0);
    assert!(kept.voters.is_empty());
}

#[test]
fn unknown_option_mutates_nothing() {
    let mut reg = Registry::new(1);
    reg.create(two_option_input("Pick one")).unwrap();
    let r = reg.apply_vote(1, 3, 7);
    assert!(matches!(r, Err(VoteError::OptionNotFound)));
    let kept = reg.get(1).unwrap();
    assert_eq!(kept.options[0].votes, 0);
    assert_eq!(kept.options[1].votes, 0);
    assert!(kept.voters.is_empty());
}

#[test]
fn unknown_poll_reported() {
    let mut reg = Registry::new(1);
    let r = reg.apply_vote(5, 1, 7);
    assert!(matches!(r, Err(VoteError::PollNotFound)));
}

#[test]
fn distinct_voters_all_counted() {
    let mut reg = Registry::new(1);
    reg.create(two_option_input("Pick one")).unwrap();
    for voter in 1..=5u128 {
        reg.apply_vote(1, 2, voter).unwrap();
    }
    let kept = reg.get(1).unwrap();
    assert_eq!(kept.options[1].votes, 5);
    assert_eq!(kept.voters.len(), 5);
    // the tallies sum to the number of voters
    let sum: u64 = kept.options.iter().map(|o| o.votes).sum();
    assert_eq!(sum, kept.voters.len() as u64);
}

#[test]
fn add_option_appends_with_zero_tally() {
    let mut reg = Registry::new(1);
    reg.create(two_option_input("Pick one")).unwrap();
    let req = AddOptionRequest { id: 3, poll_id: 1, label: "C".to_string() };
    let added = reg.add_option(req.poll_id, req.id, req.label).unwrap();
    assert_eq!(added.id, 3);
    assert_eq!(added.label, "C");
    assert_eq!(added.votes, 0);
    let kept = reg.get(1).unwrap();
    assert_eq!(kept.options.len(), 3);
    assert_eq!(kept.options[2].label, "C");
    // the new option can be voted for
    let snap = reg.apply_vote(1, 3, 9).unwrap();
    assert_eq!(snap.options[2].votes, 1);
}

#[test]
fn add_option_rejects_duplicates_and_unknown_polls() {
    let mut reg = Registry::new(1);
    reg.create(two_option_input("Pick one")).unwrap();
    let dup = reg.add_option(1, 2, "again".to_string());
    assert!(matches!(dup, Err(RegistryError::OptionAlreadyExists)));
    let kept = reg.get(1).unwrap();
    assert_eq!(kept.options.len(), 2);
    assert_eq!(kept.options[1].label, "B");
    let missing = reg.add_option(9, 1, "X".to_string());
    assert!(matches!(missing, Err(RegistryError::NotFound)));
}
