use rumi_protocol_backend::liquidation::distribute_across_vaults;
use rumi_protocol_backend::numeric::{ICP, ICUSD};
use rumi_protocol_backend::state::{Mode, State};
use rumi_protocol_backend::vault::{OwnerIndexEntry, Principal, Vault};
use rumi_protocol_backend::InitArg;

#[test]
fn test_distribute_across_vaults() {
    let mut vaults = Vec::new();
    let vault1 = Vault {
        owner: Principal::anonymous(),
        vault_id: 1,
        icp_margin_amount: ICP::new(500_000),
        borrowed_icusd_amount: ICUSD::new(300_000),
    };

    let vault2 = Vault {
        owner: Principal::anonymous(),
        vault_id: 2,
        icp_margin_amount: ICP::new(300_000),
        borrowed_icusd_amount: ICUSD::new(200_000),
    };

    vaults.push(vault1);
    vaults.push(vault2);

    let target_vault = Vault {
        owner: Principal::anonymous(),
        vault_id: 3,
        icp_margin_amount: ICP::new(700_000),
        borrowed_icusd_amount: ICUSD::new(400_000),
    };

    let result = distribute_across_vaults(&vaults, target_vault).unwrap();

    assert_eq!(result.len(), 2);
    assert_eq!(result[0].icp_share_amount, ICP::new(437_500));
    assert_eq!(result[0].icusd_share_amount, ICUSD::new(250_000));
    assert_eq!(result[1].icp_share_amount, ICP::new(262_500));
    assert_eq!(result[1].icusd_share_amount, ICUSD::new(150_000));
}

fn user(n: u128) -> Principal {
    Principal { len: 10, high: 0, low: n }
}

fn new_state() -> State {
    State::new(InitArg {
        xrc_principal: user(1_000),
        icusd_ledger_principal: user(1_001),
        icp_ledger_principal: user(1_002),
        fee_e8s: 500_000,
        developer_principal: user(1_003),
    })
    .unwrap()
}

fn vault(owner: Principal, vault_id: u64, margin: u64, debt: u64) -> Vault {
    Vault {
        owner,
        borrowed_icusd_amount: ICUSD::new(debt),
        icp_margin_amount: ICP::new(margin),
        vault_id,
    }
}

#[test]
fn a_new_state() {
    let state = new_state();
    assert_eq!(state.mode, Mode::GeneralAvailability);
    assert_eq!(state.mode.name(), "General availability");
    assert_eq!(Mode::ReadOnly.name(), "Read-only");
    assert_eq!(Mode::Recovery.name(), "Recovery");
    assert_eq!(state.next_available_vault_id, 0);
    assert_eq!(state.icp_ledger_fee, ICP::new(10));
    assert!(state
        .fee
        .same_value(rumi_protocol_backend::state::default_borrow_fee()));
    assert!(state.last_icp_rate.is_none());
    assert_eq!(state.total_borrowed_icusd_amount(), ICUSD::new(0));
    assert!(state.check_invariants().is_ok());
}

#[test]
fn vaults_are_kept_in_order_and_indexed() {
    let mut state = new_state();
    for _ in 0..5 {
        state.increment_vault_id();
    }
    state.open_vault(vault(user(1), 3, 30, 3));
    state.open_vault(vault(user(2), 1, 10, 1));
    state.open_vault(vault(user(1), 4, 40, 4));
    state.open_vault(vault(user(1), 0, 5, 0));
    let ids: Vec<u64> = state.vault_id_to_vaults.iter().map(|v| v.vault_id).collect();
    assert_eq!(ids, vec![0, 1, 3, 4]);
    assert_eq!(state.vault_ids_of(user(1)), vec![0, 3, 4]);
    assert_eq!(state.vault_ids_of(user(2)), vec![1]);
    assert!(state.vault_ids_of(user(3)).is_empty());
    assert_eq!(state.find_vault(3), Some(2));
    assert_eq!(state.find_vault(2), None);
    assert_eq!(state.total_borrowed_icusd_amount(), ICUSD::new(8));
    assert_eq!(state.total_icp_margin_amount(), ICP::new(85));
    assert!(state.check_invariants().is_ok());

    state.borrow_from_vault(3, ICUSD::new(7));
    state.add_margin_to_vault(1, ICP::new(1));
    state.repay_to_vault(4, ICUSD::new(4));
    assert_eq!(state.get_vault(3).unwrap().borrowed_icusd_amount, ICUSD::new(10));
    assert_eq!(state.get_vault(1).unwrap().icp_margin_amount, ICP::new(11));
    assert_eq!(state.get_vault(4).unwrap().borrowed_icusd_amount, ICUSD::new(0));
    assert_eq!(state.total_borrowed_icusd_amount(), ICUSD::new(11));
    assert_eq!(state.total_icp_margin_amount(), ICP::new(86));

    state.close_vault(3);
    assert!(state.get_vault(3).is_none());
    assert_eq!(state.vault_ids_of(user(1)), vec![0, 4]);
    assert_eq!(state.pending_margin_transfers.get(3).unwrap().margin, ICP::new(20));
    assert_eq!(state.total_borrowed_icusd_amount(), ICUSD::new(1));
    assert!(state.check_invariants().is_ok());
    assert_eq!(state.increment_vault_id(), 5);
}

#[test]
fn a_broken_index_is_found() {
    let mut state = new_state();
    state.increment_vault_id();
    state.open_vault(vault(user(1), 0, 1, 0));
    let mut other = new_state();
    other.increment_vault_id();
    other.open_vault(vault(user(1), 0, 1, 0));
    assert!(state.check_semantically_eq(&other).is_ok());
    other.principal_to_vault_ids.push(OwnerIndexEntry { owner: user(1), vault_id: 9 });
    assert!(other.check_invariants().is_err());
    assert!(state.check_semantically_eq(&other).is_err());
    other.principal_to_vault_ids.clear();
    assert!(other.check_invariants().is_err());
    let mut third = new_state();
    third.increment_vault_id();
    third.open_vault(vault(user(1), 0, 2, 0));
    assert!(state.check_semantically_eq(&third).is_err());
}
