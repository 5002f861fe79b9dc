use merkle_distributor::error::ErrorCode;
use merkle_distributor::instructions::admin::{
    handle_clawback, handle_close_distributor, handle_create_canopy_tree, handle_new_distributor,
    handle_set_activation_point, handle_set_activation_slot, handle_set_activation_timestamp,
    handle_set_admin, handle_set_clawback_receiver, handle_set_operator, key_is_default,
    NewDistributorAccounts, NewDistributorParams,
};
use merkle_distributor::instructions::funding::{
    handle_distribute_vault, handle_fund_distributor_root,
    handle_fund_merkle_distributor_from_root, handle_new_distributor_root,
    handle_new_parent_account, RemainingAccount,
};
use merkle_distributor::digest::hash_pair;
use merkle_distributor::seeds::{get_claim_status_pda, get_merkle_distributor_pda};
use solana_program::pubkey::Pubkey;

fn key(n: u8) -> [u8; 32] {
    let mut k = [0u8; 32];
    k[0] = n;
    k[31] = 255 - n;
    k
}

fn params() -> NewDistributorParams {
    NewDistributorParams {
        version: 3,
        total_claim: 800,
        max_num_nodes: 10,
        start_vesting_ts: 1000,
        end_vesting_ts: 2000,
        clawback_start_ts: 2000 + 86400,
        activation_point: 500,
        activation_type: 0,
        closable: true,
        total_bonus: 200,
        bonus_vesting_duration: 100,
        claim_type: 0,
        operator: [0u8; 32],
        locker: [0u8; 32],
    }
}

fn accounts() -> NewDistributorAccounts {
    NewDistributorAccounts {
        bump: 250,
        root: key(9),
        base: key(101),
        mint: key(100),
        token_vault: key(102),
        clawback_receiver: key(103),
        admin: key(104),
        distributor_root: key(105),
        parent_account: key(106),
    }
}

#[test]
fn new_distributor_is_validated_and_counted() {
    let mut root = handle_new_distributor_root(1, key(100), key(101), key(110), 5000, 4);
    assert_eq!(root.total_funded_amount, 0);
    assert_eq!(root.total_distributor_created, 0);
    assert_eq!(root.max_claim_amount, 5000);
    assert_eq!(root.max_distributor, 4);
    let d = handle_new_distributor(&mut root, &params(), &accounts(), 999).unwrap();
    assert_eq!(root.total_distributor_created, 1);
    assert_eq!(d.max_total_claim, 1000);
    assert_eq!(d.version, 3);
    assert_eq!(d.root, key(9));
    assert_eq!(d.admin, key(104));
    assert_eq!(d.closable, 1);
    assert_eq!(d.clawed_back, 0);
    assert_eq!(d.total_amount_claimed, 0);
    assert_eq!(d.num_nodes_claimed, 0);
    assert_eq!(d.airdrop_bonus.total_bonus, 200);
    assert_eq!(d.airdrop_bonus.vesting_duration, 100);
    assert_eq!(d.airdrop_bonus.total_claimed_bonus, 0);
    assert_eq!(d.distributor_root, key(105));
    assert_eq!(params().get_max_total_claim(), Ok(1000));
    assert_eq!(params().get_airdrop_bonus().total_bonus, 200);

    let mut p = params();
    p.total_bonus = u64::MAX;
    assert_eq!(handle_new_distributor(&mut root, &p, &accounts(), 999).err(), Some(ErrorCode::ArithmeticError));
    assert_eq!(root.total_distributor_created, 1);
    for created in 2..=4 {
        assert!(handle_new_distributor(&mut root, &params(), &accounts(), 999).is_ok());
        assert_eq!(root.total_distributor_created, created);
    }
    assert_eq!(
        handle_new_distributor(&mut root, &params(), &accounts(), 999).err(),
        Some(ErrorCode::MaxDistributorExceeded)
    );
    assert_eq!(root.update_new_distributor(), Err(ErrorCode::MaxDistributorExceeded));
    assert_eq!(root.total_distributor_created, 4);
    let mut none = handle_new_distributor_root(1, key(100), key(101), key(110), 5000, 0);
    assert_eq!(
        handle_new_distributor(&mut none, &params(), &accounts(), 999).err(),
        Some(ErrorCode::MaxDistributorExceeded)
    );
    assert_eq!(none.total_distributor_created, 0);
    let mut full = handle_new_distributor_root(1, key(100), key(101), key(110), 5000, u64::MAX);
    full.total_distributor_created = u64::MAX;
    assert_eq!(full.update_new_distributor(), Err(ErrorCode::MaxDistributorExceeded));
}

#[test]
fn parameters_are_refused_in_order() {
    assert_eq!(params().validate(999), Ok(()));
    let mut p = params();
    p.activation_type = 2;
    p.start_vesting_ts = 3000;
    assert_eq!(p.validate(999), Err(ErrorCode::InvalidActivationType));
    let mut p = params();
    p.start_vesting_ts = 2000;
    assert_eq!(p.validate(999), Err(ErrorCode::StartTimestampAfterEnd));
    let mut p = params();
    p.clawback_start_ts = 2000;
    assert_eq!(p.validate(999), Err(ErrorCode::ClawbackDuringVesting));
    assert_eq!(params().validate(1000), Err(ErrorCode::TimestampsNotInFuture));
    let mut p = params();
    p.clawback_start_ts = 2000 + 86399;
    assert_eq!(p.validate(999), Err(ErrorCode::InsufficientClawbackDelay));
    let mut p = params();
    p.end_vesting_ts = i64::MAX - 1;
    p.clawback_start_ts = i64::MAX;
    assert_eq!(p.validate(999), Err(ErrorCode::ArithmeticError));
    let mut p = params();
    p.claim_type = 4;
    assert_eq!(p.validate(999), Err(ErrorCode::TypeCastedError));
    let mut p = params();
    p.locker = key(1);
    assert_eq!(p.validate(999), Err(ErrorCode::InvalidLocker));
    let mut p = params();
    p.operator = key(1);
    assert_eq!(p.validate(999), Err(ErrorCode::InvalidOperator));
    p.claim_type = 1;
    assert_eq!(p.validate(999), Ok(()));
    p.claim_type = 2;
    assert_eq!(p.validate(999), Err(ErrorCode::InvalidLocker));
    p.locker = key(2);
    assert_eq!(p.validate(999), Err(ErrorCode::InvalidOperator));
    p.claim_type = 3;
    assert_eq!(p.validate(999), Ok(()));
    assert!(key_is_default(&[0u8; 32]));
    assert!(!key_is_default(&key(0)));
}

#[test]
fn admin_rotations_need_the_admin_and_a_change() {
    let mut root = handle_new_distributor_root(1, key(100), key(101), key(110), 5000, 4);
    let mut d = handle_new_distributor(&mut root, &params(), &accounts(), 999).unwrap();

    assert_eq!(handle_set_admin(&mut d, &key(1), key(2)), Err(ErrorCode::Unauthorized));
    assert_eq!(handle_set_admin(&mut d, &key(104), key(104)), Err(ErrorCode::SameAdmin));
    assert_eq!(d.admin, key(104));
    assert_eq!(handle_set_admin(&mut d, &key(104), key(2)), Ok(()));
    assert_eq!(d.admin, key(2));

    assert_eq!(handle_set_clawback_receiver(&mut d, &key(104), key(3)), Err(ErrorCode::Unauthorized));
    assert_eq!(handle_set_clawback_receiver(&mut d, &key(2), key(103)), Err(ErrorCode::SameClawbackReceiver));
    assert_eq!(handle_set_clawback_receiver(&mut d, &key(2), key(3)), Ok(()));
    assert_eq!(d.clawback_receiver, key(3));

    assert_eq!(handle_set_operator(&mut d, &key(1), key(4)), Err(ErrorCode::Unauthorized));
    assert_eq!(handle_set_operator(&mut d, &key(2), key(4)), Err(ErrorCode::InvalidClaimType));
    d.claim_type = 7;
    assert_eq!(handle_set_operator(&mut d, &key(2), key(4)), Err(ErrorCode::TypeCastedError));
    d.claim_type = 1;
    assert_eq!(handle_set_operator(&mut d, &key(2), [0u8; 32]), Err(ErrorCode::SameOperator));
    assert_eq!(handle_set_operator(&mut d, &key(2), key(4)), Ok(()));
    assert_eq!(d.operator, key(4));

    assert_eq!(handle_set_activation_point(&mut d, &key(1), 9), Err(ErrorCode::Unauthorized));
    assert_eq!(handle_set_activation_point(&mut d, &key(2), 9), Ok(()));
    assert_eq!(d.activation_point, 9);
    assert_eq!(handle_set_activation_timestamp(&mut d, &key(2), 11), Err(ErrorCode::InvalidActivationType));
    assert_eq!(handle_set_activation_slot(&mut d, &key(1), 11), Err(ErrorCode::Unauthorized));
    assert_eq!(handle_set_activation_slot(&mut d, &key(2), 11), Ok(()));
    assert_eq!(d.activation_point, 11);
    d.activation_type = 1;
    assert_eq!(handle_set_activation_slot(&mut d, &key(2), 12), Err(ErrorCode::InvalidActivationType));
    assert_eq!(handle_set_activation_timestamp(&mut d, &key(2), 13), Ok(()));
    assert_eq!(d.activation_point, 13);
}

#[test]
fn clawback_happens_once_after_its_start() {
    let mut root = handle_new_distributor_root(1, key(100), key(101), key(110), 5000, 4);
    let mut d = handle_new_distributor(&mut root, &params(), &accounts(), 999).unwrap();
    let start = 2000 + 86400;
    assert_eq!(handle_close_distributor(&d, &key(104), &key(102), 70), Err(ErrorCode::CannotCloseDistributor));
    assert_eq!(handle_clawback(&mut d, &key(1), start, 70), Err(ErrorCode::InvalidAccount));
    assert_eq!(handle_clawback(&mut d, &key(103), start - 1, 70), Err(ErrorCode::ClawbackBeforeStart));
    assert_eq!(d.clawed_back, 0);
    assert_eq!(handle_clawback(&mut d, &key(103), start, 70), Ok(70));
    assert_eq!(d.clawed_back, 1);
    assert_eq!(handle_clawback(&mut d, &key(103), start, 70), Err(ErrorCode::ClawbackAlreadyClaimed));

    assert_eq!(handle_close_distributor(&d, &key(1), &key(102), 5), Err(ErrorCode::Unauthorized));
    assert_eq!(handle_close_distributor(&d, &key(104), &key(1), 5), Err(ErrorCode::InvalidAccount));
    assert_eq!(handle_close_distributor(&d, &key(104), &key(102), 5), Ok(5));
    d.closable = 0;
    assert_eq!(handle_close_distributor(&d, &key(104), &key(102), 5), Err(ErrorCode::CannotCloseDistributor));
}

#[test]
fn canopy_is_stored_only_if_it_folds_to_the_root() {
    let a = [1u8; 32];
    let b = [2u8; 32];
    let c = [3u8; 32];
    let root = hash_pair(&hash_pair(&a, &b), &c);
    let tree = handle_create_canopy_tree(key(5), 2, root, vec![a, b, c]).unwrap();
    assert_eq!(tree.root, root);
    assert_eq!(tree.depth, 2);
    assert_eq!(tree.nodes, vec![a, b, c]);
    assert_eq!(tree.distributor, key(5));
    assert_eq!(
        handle_create_canopy_tree(key(5), 2, root, vec![a, c, b]).err(),
        Some(ErrorCode::CanopyRootMissMatch)
    );
    assert_eq!(
        handle_create_canopy_tree(key(5), 2, root, Vec::new()).err(),
        Some(ErrorCode::CanopyRootMissMatch)
    );
    // a level at depth 1 has at most two nodes, at depth 0 the root alone
    assert_eq!(
        handle_create_canopy_tree(key(5), 1, root, vec![a, b, c]).err(),
        Some(ErrorCode::CanopyNodesExceeded)
    );
    assert_eq!(
        handle_create_canopy_tree(key(5), 0, root, vec![a, c, b]).err(),
        Some(ErrorCode::CanopyNodesExceeded)
    );
    assert_eq!(handle_create_canopy_tree(key(5), 0, root, vec![root]).unwrap().nodes, vec![root]);
    assert_eq!(handle_create_canopy_tree(key(5), 255, root, vec![a, b, c]).unwrap().depth, 255);
}

#[test]
fn funding_tops_up_to_the_ceiling_and_no_further() {
    let mut root = handle_new_distributor_root(1, key(100), key(101), key(110), 1000, 4);
    assert_eq!(handle_fund_distributor_root(&mut root, &key(1), 10), Err(ErrorCode::InvalidAccount));
    assert_eq!(handle_fund_distributor_root(&mut root, &key(100), 600), Ok(600));
    assert_eq!(root.total_funded_amount, 600);
    assert_eq!(handle_fund_distributor_root(&mut root, &key(100), 500), Ok(400));
    assert_eq!(root.total_funded_amount, 1000);
    assert_eq!(handle_fund_distributor_root(&mut root, &key(100), 300), Ok(0));
    assert_eq!(root.get_and_set_fund_amount(1), Ok(0));
    assert_eq!(root.total_funded_amount, 1000);
    root.total_funded_amount = 1001;
    assert_eq!(root.get_and_set_fund_amount(1), Err(ErrorCode::ArithmeticError));
    assert_eq!(root.total_funded_amount, 1001);

    let mut counting = handle_new_distributor_root(1, key(100), key(101), key(110), 1000, 4);
    let mut d = handle_new_distributor(&mut counting, &params(), &accounts(), 999).unwrap();
    assert_eq!(handle_fund_merkle_distributor_from_root(&mut d, &key(1)), Err(ErrorCode::InvalidAccount));
    assert_eq!(handle_fund_merkle_distributor_from_root(&mut d, &key(105)), Ok(1000));
    assert_eq!(d.funded_amount, 1000);
    assert_eq!(handle_fund_merkle_distributor_from_root(&mut d, &key(105)), Ok(0));
    assert_eq!(d.funded_amount, 1000);
}

fn vault(k: u8, amount: u64) -> RemainingAccount {
    RemainingAccount::Vault { key: key(k), amount }
}

fn dist(vault: u8, parent: u8, max: u64) -> RemainingAccount {
    RemainingAccount::Distributor { token_vault: key(vault), parent_account: key(parent), max_total_claim: max }
}

#[test]
fn parent_sweep_pays_shortfalls_and_skips_funded_vaults() {
    let mut parent = handle_new_parent_account(2, key(104), key(100), key(120));
    assert_eq!(parent.total_distributed, 0);
    let pk = key(106);
    let accounts = vec![
        vault(1, 0),
        dist(1, 106, 1000),
        vault(2, 700),
        dist(2, 106, 700),
        vault(3, 900),
        dist(3, 106, 500),
        vault(4, 1),
        dist(4, 106, 10),
    ];
    assert_eq!(handle_distribute_vault(&mut parent, &pk, &key(104), &accounts), Ok(vec![1000, 0, 0, 9]));
    assert_eq!(parent.total_distributed, 1009);
    assert_eq!(handle_distribute_vault(&mut parent, &pk, &key(104), &Vec::new()), Ok(Vec::new()));

    assert_eq!(handle_distribute_vault(&mut parent, &pk, &key(1), &accounts), Err(ErrorCode::Unauthorized));
    assert_eq!(
        handle_distribute_vault(&mut parent, &pk, &key(104), &accounts[..3].to_vec()),
        Err(ErrorCode::InvalidRemainingAccounts)
    );
    let wrong_vault = vec![vault(1, 0), dist(1, 106, 5), vault(9, 0), dist(2, 106, 5)];
    assert_eq!(handle_distribute_vault(&mut parent, &pk, &key(104), &wrong_vault), Err(ErrorCode::InvalidAccount));
    let wrong_parent = vec![vault(1, 0), dist(1, 107, 5)];
    assert_eq!(handle_distribute_vault(&mut parent, &pk, &key(104), &wrong_parent), Err(ErrorCode::InvalidAccount));
    let swapped = vec![dist(1, 106, 5), vault(1, 0)];
    assert_eq!(handle_distribute_vault(&mut parent, &pk, &key(104), &swapped), Err(ErrorCode::InvalidAccount));
    let too_much = vec![vault(1, 0), dist(1, 106, u64::MAX)];
    assert_eq!(handle_distribute_vault(&mut parent, &pk, &key(104), &too_much), Err(ErrorCode::ArithmeticError));
    assert_eq!(parent.total_distributed, 1009);
    assert_eq!(parent.accumulate_distribution(u64::MAX), Err(ErrorCode::ArithmeticError));
    assert_eq!(parent.accumulate_distribution(1), Ok(()));
    assert_eq!(parent.total_distributed, 1010);
}

#[test]
fn addresses_and_seeds_are_those_of_the_program() {
    let program = key(33);
    let base = key(101);
    let mint = key(100);
    let found = get_merkle_distributor_pda(&program, &base, &mint, 7);
    let expected = Pubkey::try_find_program_address(
        &[b"MerkleDistributor".as_ref(), &base, &mint, &7u64.to_le_bytes()],
        &Pubkey::new_from_array(program),
    )
    .map(|(k, b)| (k.to_bytes(), b));
    assert!(found.is_some());
    assert_eq!(found, expected);
    assert_ne!(found.unwrap().0, program);
    assert_ne!(found, get_merkle_distributor_pda(&program, &base, &mint, 8));

    let claim = get_claim_status_pda(&program, &key(1), &key(2));
    let expected = Pubkey::try_find_program_address(
        &[b"ClaimStatus".as_ref(), &key(1), &key(2)],
        &Pubkey::new_from_array(program),
    )
    .map(|(k, b)| (k.to_bytes(), b));
    assert_eq!(claim, expected);

    let mut root = handle_new_distributor_root(9, mint, base, key(110), 1000, 4);
    let d = handle_new_distributor(&mut root, &params(), &accounts(), 999).unwrap();
    assert_eq!(
        d.signer().seeds(),
        vec![
            b"MerkleDistributor".to_vec(),
            base.to_vec(),
            mint.to_vec(),
            3u64.to_le_bytes().to_vec(),
            vec![250u8],
        ]
    );
    assert_eq!(
        root.signer().seeds(),
        vec![b"DistributorRoot".to_vec(), base.to_vec(), mint.to_vec(), vec![9u8]]
    );
    let parent = handle_new_parent_account(2, key(104), mint, key(120));
    assert_eq!(
        parent.signer().seeds(),
        vec![b"ParentAccount".to_vec(), mint.to_vec(), vec![2u8]]
    );
}
