use voting::engine::Engine;
use voting::error::VotingError;
use voting::state::Proposal;

fn fresh_engine() -> Engine {
    Engine::initialize_config(1, 1000, 9)
}

fn two_options() -> Vec<Vec<u8>> {
    vec![b"yes".to_vec(), b"no".to_vec()]
}

#[test]
fn create_proposal_assigns_next_id() {
    let mut e = fresh_engine();
    e.create_proposal(1, 10, 9000, 3, b"abc".to_vec(), b"d".to_vec(), two_options(), 100)
        .unwrap();
    assert_eq!(e.proposals.len(), 1);
    let p = &e.proposals[0];
    assert_eq!(p.id, 1);
    assert_eq!(p.total_votes, 0);
    assert_eq!(p.quorum_votes, 10);
    assert_eq!(p.created_ts, 100);
    assert_eq!(p.ending_ts, 9000);
    assert_eq!(p.points, 3);
    assert_eq!(p.title, b"abc".to_vec());
    assert_eq!(p.description, b"d".to_vec());
    assert_eq!(p.options, two_options());
    assert_eq!(p.option_votes, vec![0, 0]);
    assert_eq!(e.config.next_proposal_id, 2);
}

#[test]
fn proposal_ids_are_strictly_increasing() {
    let mut e = fresh_engine();
    e.create_proposal(1, 10, 9000, 3, b"abc".to_vec(), b"d".to_vec(), two_options(), 100)
        .unwrap();
    e.create_proposal(1, 10, 9000, 3, b"def".to_vec(), b"d".to_vec(), two_options(), 101)
        .unwrap();
    assert_eq!(e.proposals[0].id, 1);
    assert_eq!(e.proposals[1].id, 2);
    assert_eq!(e.config.next_proposal_id, 3);
}

#[test]
fn create_proposal_rejects_other_callers() {
    let mut e = fresh_engine();
    let r = e.create_proposal(2, 10, 9000, 3, b"abc".to_vec(), b"d".to_vec(), two_options(), 100);
    assert_eq!(r, Err(VotingError::InvalidAuthority));
    assert!(e.proposals.is_empty());
    assert_eq!(e.config.next_proposal_id, 1);
}

#[test]
fn create_proposal_rejects_short_title() {
    let mut e = fresh_engine();
    let r = e.create_proposal(1, 10, 9000, 3, b"ab".to_vec(), b"d".to_vec(), two_options(), 100);
    assert_eq!(r, Err(VotingError::TitleTooShort));
    assert!(e.proposals.is_empty());
}

#[test]
fn create_proposal_rejects_single_option() {
    let mut e = fresh_engine();
    let r = e.create_proposal(
        1,
        10,
        9000,
        3,
        b"abc".to_vec(),
        b"d".to_vec(),
        vec![b"yes".to_vec()],
        100,
    );
    assert_eq!(r, Err(VotingError::NotEnoughOptions));
    assert!(e.proposals.is_empty());
}

#[test]
fn space_counts_every_field() {
    // 8 discriminator + 42 bytes of fixed fields + four 4-byte length
    // prefixes = 66, plus the content bytes, per-option prefixes and
    // 8 bytes of tally per option.
    let title = b"abc".to_vec();
    let description = b"hello".to_vec();
    let options = vec![b"yes".to_vec(), b"no".to_vec()];
    // 66 + 3 + 5 + (3 + 4) + (2 + 4) + 2 * 8 = 103
    assert_eq!(Proposal::space(&title, &description, &options), 103);
}

#[test]
fn space_grows_with_each_option() {
    let title = b"abc".to_vec();
    let description = Vec::new();
    let one = vec![b"a".to_vec(), b"b".to_vec()];
    let two = vec![b"a".to_vec(), b"b".to_vec(), b"c".to_vec()];
    let base = Proposal::space(&title, &description, &one);
    // One more single-byte label: 1 content byte + 4 prefix + 8 tally.
    assert_eq!(Proposal::space(&title, &description, &two), base + 13);
}
