use shield_core::builder::{
    plan_transaction, route_payment, select_spends, sort_notes_by_value, Destination,
};
use shield_core::{Network, Note, ShieldError, FIXED_FEE};

fn note(value: u64) -> Note {
    Note { value, recipient: [0u8; 43], rseed: [0u8; 32] }
}

fn pairs(values: &[u64]) -> Vec<(Note, String)> {
    values.iter().enumerate().map(|(i, v)| (note(*v), format!("witness{i}"))).collect()
}

#[test]
fn insufficient_balance_emits_nothing() {
    // The candidates together stay below amount + fee: no plan comes out.
    let notes = pairs(&[1, 2]);
    assert_eq!(select_spends(&notes, 0).unwrap_err(), ShieldError::InsufficientBalance);
    let notes = pairs(&[FIXED_FEE]);
    assert_eq!(select_spends(&notes, 1).unwrap_err(), ShieldError::InsufficientBalance);
}

#[test]
fn exact_threshold_is_enough() {
    let amount = 600_000;
    let notes = pairs(&[amount + FIXED_FEE]);
    let sel = select_spends(&notes, amount).unwrap();
    assert_eq!(sel.count, 1);
    assert_eq!(sel.total, (amount + FIXED_FEE) as u128);
    assert_eq!(sel.change, 0);
}

#[test]
fn first_sufficient_prefix_is_used() {
    // The running total first reaches amount + fee at the second note:
    // exactly two are consumed, the third stays untouched.
    let notes = pairs(&[2_000_000, 1_000_000, 999]);
    let sel = select_spends(&notes, 600_000).unwrap();
    assert_eq!(sel.count, 2);
    assert_eq!(sel.total, 3_000_000);
    assert_eq!(sel.change, 3_000_000 - 600_000 - FIXED_FEE);
}

#[test]
fn selection_stops_at_first_cover_even_with_more_value_behind() {
    let notes = pairs(&[FIXED_FEE + 5, 1_000_000_000]);
    let sel = select_spends(&notes, 5).unwrap();
    assert_eq!(sel.count, 1);
    assert_eq!(sel.change, 0);
}

#[test]
fn shielded_prefix_routes_shielded() {
    assert_eq!(route_payment("ps1qabc", Network::Main, true, false), Ok(Destination::Shielded));
    assert_eq!(
        route_payment("ptestsapling1xyz", Network::Test, true, false),
        Ok(Destination::Shielded)
    );
}

#[test]
fn other_prefix_routes_transparent() {
    assert_eq!(route_payment("DMoguA1rSFXegW2BVm1CxmMTizrAWecbTp", Network::Main, false, true),
        Ok(Destination::Transparent));
    // A main-network shielded prefix means nothing on the test network.
    assert_eq!(route_payment("ps1qabc", Network::Test, false, true), Ok(Destination::Transparent));
}

#[test]
fn undecodable_destination_is_an_address_error() {
    // Matches neither encoding: the shielded branch is not taken and the
    // transparent decoding failed.
    assert_eq!(
        route_payment("notanaddress", Network::Main, false, false),
        Err(ShieldError::BadAddress)
    );
    // Carries the shielded prefix but does not decode as a payment address.
    assert_eq!(route_payment("ps1broken", Network::Main, false, true),
        Err(ShieldError::BadAddress));
}

#[test]
fn plan_selects_only_first_note_when_it_covers() {
    // Two decrypted notes; the requested amount plus the fixed fee fits
    // inside the first note's value: one spend, change = value1 - amount -
    // fee, and the payment goes to the shielded destination.
    let value1 = 3_000_000;
    let amount = 600_000;
    let notes = pairs(&[value1, 999]);
    let plan =
        plan_transaction(&notes, amount, "ps1qdest", Network::Main, true, true, false).unwrap();
    assert_eq!(plan.spend_count, 1);
    assert_eq!(plan.change, value1 - amount - FIXED_FEE);
    assert_eq!(plan.destination, Destination::Shielded);
}

#[test]
fn plan_fails_on_unmatched_destination() {
    let notes = pairs(&[10_000_000]);
    let r = plan_transaction(&notes, 1_000, "notanaddress", Network::Main, true, false, false);
    assert_eq!(r.unwrap_err(), ShieldError::BadAddress);
}

#[test]
fn plan_insufficient_balance_dominates_bad_address() {
    let notes = pairs(&[1]);
    let r = plan_transaction(&notes, 1_000, "notanaddress", Network::Main, false, false, false);
    assert_eq!(r.unwrap_err(), ShieldError::InsufficientBalance);
}

#[test]
fn plan_rejects_bad_change_address() {
    let notes = pairs(&[10_000_000]);
    let r = plan_transaction(&notes, 1_000, "ps1qdest", Network::Main, false, true, false);
    assert_eq!(r.unwrap_err(), ShieldError::BadAddress);
}

#[test]
fn plan_routes_transparent_destination() {
    let notes = pairs(&[10_000_000]);
    let plan = plan_transaction(
        &notes,
        1_000,
        "DMoguA1rSFXegW2BVm1CxmMTizrAWecbTp",
        Network::Main,
        true,
        false,
        true,
    )
    .unwrap();
    assert_eq!(plan.destination, Destination::Transparent);
    assert_eq!(plan.spend_count, 1);
    assert_eq!(plan.change, 10_000_000 - 1_000 - FIXED_FEE);
}

#[test]
fn sort_orders_by_ascending_value() {
    let notes = pairs(&[5, 1, 3]);
    let sorted = sort_notes_by_value(&notes);
    assert_eq!(sorted.len(), 3);
    assert_eq!(sorted[0].0.value, 1);
    assert_eq!(sorted[0].1, "witness1");
    assert_eq!(sorted[1].0.value, 3);
    assert_eq!(sorted[1].1, "witness2");
    assert_eq!(sorted[2].0.value, 5);
    assert_eq!(sorted[2].1, "witness0");
}

#[test]
fn sort_keeps_equal_values() {
    let notes = pairs(&[2, 2, 1]);
    let sorted = sort_notes_by_value(&notes);
    assert_eq!(sorted.len(), 3);
    assert_eq!(sorted[0].0.value, 1);
    assert_eq!(sorted[1].0.value, 2);
    assert_eq!(sorted[2].0.value, 2);
}
