use blockstm_logging::workload::{
    mint_choices, plan_from, sharded_vote_choices,
    plan_accounts, plan_airdrop_transfers, plan_ballot_votes, plan_empty, plan_kitty_breeds,
    plan_kitty_mints, plan_pixel_occupations, plan_sharded_votes, SequenceBook, GENE_LIMIT,
};

fn numbers_consecutive(senders: &[usize], numbers: &[u64], start: &[u64], end: &SequenceBook) {
    let mut next: Vec<u64> = start.to_vec();
    for (s, n) in senders.iter().zip(numbers.iter()) {
        assert_eq!(*n, next[*s]);
        next[*s] += 1;
    }
    for (a, n) in next.iter().enumerate() {
        assert_eq!(end.number(a), *n);
    }
}

#[test]
fn setup_transactions_take_each_account_in_order() {
    let start = vec![3, 0, 7, 1];
    let mut book = SequenceBook::new(start.clone());
    let plan = plan_accounts(&mut book, 1, 3);
    assert_eq!(plan.len(), 2);
    assert_eq!(plan[0].sender, 1);
    assert_eq!(plan[0].sequence_number, 0);
    assert_eq!(plan[1].sender, 2);
    assert_eq!(plan[1].sequence_number, 7);
    assert_eq!(book.number(1), 1);
    assert_eq!(book.number(2), 8);
    assert_eq!(book.number(0), 3);
}

#[test]
fn airdrop_transfers_stay_in_range() {
    let start = vec![0; 6];
    let mut book = SequenceBook::new(start.clone());
    let plan = plan_airdrop_transfers(&mut book, 200);
    assert_eq!(plan.len(), 200);
    for t in &plan {
        assert!(t.sender < 6);
        assert_eq!(t.payload.len(), 5);
        assert!(t.payload.iter().all(|r| *r < 6));
    }
    let senders: Vec<usize> = plan.iter().map(|t| t.sender).collect();
    let numbers: Vec<u64> = plan.iter().map(|t| t.sequence_number).collect();
    numbers_consecutive(&senders, &numbers, &start, &book);
}

#[test]
fn ballot_votes_come_from_voters() {
    let start = vec![1, 2, 3];
    let mut book = SequenceBook::new(start.clone());
    let plan = plan_ballot_votes(&mut book, 100);
    for t in &plan {
        assert!(t.sender >= 1 && t.sender < 3);
        assert_eq!(t.payload.forum, 0);
        assert!(t.payload.proposal < 3);
    }
    let senders: Vec<usize> = plan.iter().map(|t| t.sender).collect();
    let numbers: Vec<u64> = plan.iter().map(|t| t.sequence_number).collect();
    numbers_consecutive(&senders, &numbers, &start, &book);
}

#[test]
fn sharded_votes_pick_their_forum() {
    let start = vec![0; 8];
    let bytes: Vec<u8> = vec![0, 1, 2, 3, 4, 5, 6, 7];
    let mut book = SequenceBook::new(start.clone());
    let plan = plan_sharded_votes(&mut book, 100, 3, &bytes);
    for t in &plan {
        assert!(t.sender >= 3 && t.sender < 8);
        assert_eq!(t.payload.forum, (bytes[t.sender] % 3) as usize);
    }
}

#[test]
fn pixels_kitties_and_empties() {
    let mut book = SequenceBook::new(vec![0; 4]);
    for t in plan_pixel_occupations(&mut book, 50) {
        assert!(t.sender >= 1 && t.payload.x < 100 && t.payload.y < 100);
    }
    let mut book = SequenceBook::new(vec![0; 4]);
    let mints = plan_kitty_mints(&mut book, true);
    assert_eq!(mints.len(), 3);
    assert!(mints.iter().enumerate().all(|(k, t)| t.sender == k + 1 && t.payload.genes < GENE_LIMIT && t.payload.first_round));
    let again = plan_kitty_mints(&mut book, false);
    assert!(again.iter().all(|t| t.sequence_number == 1 && !t.payload.first_round));
    for t in plan_kitty_breeds(&mut book, 50) {
        assert!(t.sender >= 1 && t.sender < 4);
        assert!(t.payload.first < 3);
        assert!(t.payload.second >= 3 && t.payload.second < 6);
    }
    let start = vec![4, 4];
    let mut book = SequenceBook::new(start.clone());
    let plan = plan_empty(&mut book, 30);
    let senders: Vec<usize> = plan.iter().map(|t| t.sender).collect();
    let numbers: Vec<u64> = plan.iter().map(|t| t.sequence_number).collect();
    numbers_consecutive(&senders, &numbers, &start, &book);
    assert_eq!(book.take(0) + book.take(1) + 2, 4 + 4 + 30 + 2);
}

#[test]
fn chosen_transactions_are_planned_as_chosen() {
    let mut book = SequenceBook::new(vec![3, 7, 0]);
    let plan = plan_from(&mut book, &vec![(1, 'a'), (0, 'b'), (1, 'c')]);
    let got: Vec<(usize, char, u64)> = plan.iter().map(|t| (t.sender, t.payload, t.sequence_number)).collect();
    assert_eq!(got, vec![(1, 'a', 7), (0, 'b', 3), (1, 'c', 8)]);
    assert_eq!(book.number(0), 4);
    assert_eq!(book.number(1), 9);
    assert_eq!(book.number(2), 0);
}

#[test]
fn sharded_votes_and_mints_follow_their_draws() {
    let bytes: Vec<u8> = vec![0, 0, 0, 7, 8, 250];
    let choices = sharded_vote_choices(&vec![(2, 3), (0, 5), (1, 4)], 3, &bytes);
    let got: Vec<(usize, usize, u64)> = choices.iter().map(|(v, c)| (*v, c.forum, c.proposal)).collect();
    assert_eq!(got, vec![(3, 1, 2), (5, 1, 0), (4, 2, 1)]);
    let mints = mint_choices(&vec![11, 22], false);
    assert_eq!(mints.len(), 2);
    assert_eq!((mints[0].0, mints[0].1.genes, mints[0].1.first_round), (1, 11, false));
    assert_eq!((mints[1].0, mints[1].1.genes), (2, 22));
}
