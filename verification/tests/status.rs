use cosmos_proposal_watcher::status::ProposalStatus;

#[test]
fn status_codes_follow_the_chain_numbering() {
    let all = ProposalStatus::all();
    let codes: Vec<i32> = all.iter().map(|s| s.code()).collect();
    assert_eq!(codes, vec![1, 2, 3, 4, 5]);
    assert_eq!(all[0], ProposalStatus::Deposit);
    assert_eq!(all[4], ProposalStatus::Failed);
}

#[test]
fn status_from_code_inverts_code() {
    for s in ProposalStatus::all() {
        assert_eq!(ProposalStatus::from_code(s.code()), Some(s));
    }
    assert_eq!(ProposalStatus::from_code(0), None);
    assert_eq!(ProposalStatus::from_code(6), None);
    assert_eq!(ProposalStatus::from_code(-1), None);
}

#[test]
fn status_names_and_store_suffixes() {
    assert_eq!(ProposalStatus::Deposit.name(), "Deposit");
    assert_eq!(ProposalStatus::Rejected.name(), "Rejected");
    assert_eq!(ProposalStatus::Deposit.store_suffix(), "_deposit_id");
    assert_eq!(ProposalStatus::Voting.store_suffix(), "_voting_id");
    assert_eq!(ProposalStatus::Passed.store_suffix(), "_passed_id");
    assert_eq!(ProposalStatus::Rejected.store_suffix(), "_rejected_id");
    assert_eq!(ProposalStatus::Failed.store_suffix(), "_failed_id");
}
