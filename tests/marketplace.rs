use energy_marketplace::{
    EnergyMarketplaceContract, EnergyOffer, EnergyType, Identity, MarketError, MarketStatus,
};

const A: Identity = Identity(1);
const B: Identity = Identity(2);
const C: Identity = Identity(3);

fn market_with_offer(amount: u64, valid_for: u64, now: u64) -> EnergyMarketplaceContract {
    let mut m = EnergyMarketplaceContract::new();
    let id = m.create_offer(A, amount, 2, EnergyType::Solar, valid_for, now);
    assert_eq!(id, 1);
    m
}

#[test]
fn scenario_two_trades_fill_an_offer() {
    let mut m = EnergyMarketplaceContract::new();
    let id = m.create_offer(A, 100, 2, EnergyType::Solar, 1000, 0);
    assert_eq!(id, 1);
    let offer = m.get_offer(1).unwrap();
    assert_eq!(offer.expiration_time, 1000);
    assert_eq!(offer.creation_time, 0);

    assert_eq!(m.execute_trade(B, 1, 40, 500), Ok(1));
    let offer = m.get_offer(1).unwrap();
    assert_eq!(offer.energy_amount, 60);
    assert!(offer.is_active);
    let trade = m.get_trade(1).unwrap();
    assert_eq!(trade.total_price, 80);
    assert_eq!(trade.seller, A);
    assert_eq!(trade.buyer, B);
    assert_eq!(trade.energy_type, EnergyType::Solar);
    assert_eq!(trade.trade_time, 500);
    assert_eq!(m.get_market_status().total_energy_traded, 40);

    assert_eq!(m.execute_trade(C, 1, 60, 600), Ok(2));
    assert!(!m.get_offer(1).unwrap().is_active);
    let status = m.get_market_status();
    assert_eq!(
        status,
        MarketStatus {
            active_offers: 0,
            completed_trades: 2,
            total_energy_traded: 100,
            total_offers_created: 1,
        }
    );
    let seller = m.get_user_profile(A);
    assert_eq!(seller.total_energy_sold, 100);
    assert!(seller.active_offers.is_empty());
    assert_eq!(seller.trade_history, vec![1, 2]);
    assert_eq!(m.get_user_profile(B).total_energy_bought, 40);
    assert_eq!(m.get_user_profile(C).trade_history, vec![2]);
}

#[test]
fn new_market_is_empty() {
    let m = EnergyMarketplaceContract::new();
    assert_eq!(
        m.get_market_status(),
        MarketStatus {
            active_offers: 0,
            completed_trades: 0,
            total_energy_traded: 0,
            total_offers_created: 0,
        }
    );
    assert!(m.get_active_offers().is_empty());
    assert_eq!(m.get_offer(1), Err(MarketError::NotFound));
    assert_eq!(m.get_offer(0), Err(MarketError::NotFound));
    assert_eq!(m.get_trade(1).unwrap_err(), MarketError::NotFound);
}

#[test]
fn default_profile_is_not_stored() {
    let m = EnergyMarketplaceContract::new();
    let p = m.get_user_profile(B);
    assert_eq!(p.user_address, B);
    assert_eq!(p.reputation_score, 50);
    assert_eq!(p.total_energy_sold, 0);
    assert_eq!(p.total_energy_bought, 0);
    assert!(p.active_offers.is_empty());
    assert!(p.trade_history.is_empty());
}

#[test]
fn create_offer_records_everything() {
    let mut m = EnergyMarketplaceContract::new();
    assert_eq!(m.create_offer(A, 10, 3, EnergyType::Wind, 50, 7), 1);
    assert_eq!(m.create_offer(A, 20, 4, EnergyType::Hydro, 60, 8), 2);
    assert_eq!(
        m.get_offer(2),
        Ok(EnergyOffer {
            offer_id: 2,
            seller: A,
            energy_amount: 20,
            price_per_unit: 4,
            energy_type: EnergyType::Hydro,
            creation_time: 8,
            expiration_time: 68,
            is_active: true,
        })
    );
    assert_eq!(m.get_user_profile(A).active_offers, vec![1, 2]);
    assert_eq!(m.get_market_status().active_offers, 2);
    assert_eq!(m.get_market_status().total_offers_created, 2);
}

#[test]
fn create_offer_accepts_zero_values() {
    let mut m = EnergyMarketplaceContract::new();
    assert_eq!(m.create_offer(A, 0, 0, EnergyType::Other, 0, 5), 1);
    let o = m.get_offer(1).unwrap();
    assert_eq!(o.expiration_time, 5);
    assert!(o.is_active);
}

#[test]
fn cancel_twice_fails_with_already_inactive() {
    let mut m = market_with_offer(100, 1000, 0);
    assert_eq!(m.cancel_offer(A, 1), Ok(()));
    assert_eq!(m.cancel_offer(A, 1), Err(MarketError::AlreadyInactive));
    assert!(!m.get_offer(1).unwrap().is_active);
    assert_eq!(m.get_market_status().active_offers, 0);
    assert!(m.get_user_profile(A).active_offers.is_empty());
}

#[test]
fn cancel_missing_offer_fails_with_not_found() {
    let mut m = market_with_offer(100, 1000, 0);
    assert_eq!(m.cancel_offer(A, 2), Err(MarketError::NotFound));
    assert_eq!(m.cancel_offer(A, 0), Err(MarketError::NotFound));
    assert_eq!(m.get_market_status().active_offers, 1);
}

#[test]
fn cancel_by_another_user_is_unauthorized() {
    let mut m = market_with_offer(100, 1000, 0);
    assert_eq!(m.cancel_offer(B, 1), Err(MarketError::Unauthorized));
    assert!(m.get_offer(1).unwrap().is_active);
}

#[test]
fn ids_are_not_reused_after_cancel() {
    let mut m = market_with_offer(100, 1000, 0);
    m.cancel_offer(A, 1).unwrap();
    assert_eq!(m.create_offer(B, 5, 1, EnergyType::Biomass, 10, 0), 2);
    assert_eq!(m.get_market_status().total_offers_created, 2);
    assert_eq!(m.get_market_status().active_offers, 1);
    assert_eq!(m.execute_trade(C, 2, 1, 0), Ok(1));
    assert_eq!(m.execute_trade(C, 2, 1, 0), Ok(2));
}

#[test]
fn full_trade_closes_offer() {
    let mut m = market_with_offer(30, 1000, 0);
    assert_eq!(m.execute_trade(B, 1, 30, 10), Ok(1));
    let o = m.get_offer(1).unwrap();
    assert!(!o.is_active);
    assert_eq!(o.energy_amount, 30);
    assert!(!m.get_user_profile(A).active_offers.contains(&1));
    assert_eq!(m.get_market_status().active_offers, 0);
    assert_eq!(m.execute_trade(B, 1, 1, 10), Err(MarketError::OfferInactive));
}

#[test]
fn partial_trade_reduces_offer() {
    let mut m = market_with_offer(30, 1000, 0);
    assert_eq!(m.execute_trade(B, 1, 12, 10), Ok(1));
    let o = m.get_offer(1).unwrap();
    assert!(o.is_active);
    assert_eq!(o.energy_amount, 18);
    assert_eq!(m.get_user_profile(A).active_offers, vec![1]);
    assert_eq!(m.get_market_status().active_offers, 1);
}

#[test]
fn trade_after_expiration_fails() {
    let mut m = market_with_offer(30, 100, 50);
    assert_eq!(m.execute_trade(B, 1, 10, 151), Err(MarketError::OfferExpired));
    assert!(m.get_offer(1).unwrap().is_active);
    assert_eq!(m.get_market_status().completed_trades, 0);
    assert_eq!(m.execute_trade(B, 1, 10, 150), Ok(1));
}

#[test]
fn trade_for_too_much_fails() {
    let mut m = market_with_offer(30, 100, 0);
    assert_eq!(m.execute_trade(B, 1, 31, 0), Err(MarketError::InsufficientEnergy));
    assert_eq!(m.get_offer(1).unwrap().energy_amount, 30);
}

#[test]
fn trade_on_missing_offer_fails() {
    let mut m = market_with_offer(30, 100, 0);
    assert_eq!(m.execute_trade(B, 9, 1, 0), Err(MarketError::NotFound));
}

#[test]
fn trade_on_cancelled_offer_fails() {
    let mut m = market_with_offer(30, 100, 0);
    m.cancel_offer(A, 1).unwrap();
    assert_eq!(m.execute_trade(B, 1, 1, 0), Err(MarketError::OfferInactive));
}

#[test]
fn zero_amount_trade_is_recorded() {
    let mut m = market_with_offer(30, 100, 0);
    assert_eq!(m.execute_trade(B, 1, 0, 0), Ok(1));
    let t = m.get_trade(1).unwrap();
    assert_eq!(t.energy_amount, 0);
    assert_eq!(t.total_price, 0);
    assert_eq!(m.get_market_status().completed_trades, 1);
    assert!(m.get_offer(1).unwrap().is_active);
}

#[test]
fn self_trade_updates_both_sides() {
    let mut m = market_with_offer(30, 100, 0);
    assert_eq!(m.execute_trade(A, 1, 30, 0), Ok(1));
    let p = m.get_user_profile(A);
    assert_eq!(p.total_energy_sold, 30);
    assert_eq!(p.total_energy_bought, 30);
    assert_eq!(p.trade_history, vec![1, 1]);
    assert!(p.active_offers.is_empty());
}

#[test]
fn reputation_bounds() {
    let mut m = EnergyMarketplaceContract::new();
    assert_eq!(m.update_reputation(A, B, 101), Err(MarketError::InvalidScore));
    assert_eq!(m.get_user_profile(B).reputation_score, 50);
    assert_eq!(m.update_reputation(A, B, 0), Ok(()));
    assert_eq!(m.get_user_profile(B).reputation_score, 0);
    assert_eq!(m.update_reputation(C, B, 100), Ok(()));
    assert_eq!(m.get_user_profile(B).reputation_score, 100);
}

#[test]
fn reputation_keeps_rest_of_profile() {
    let mut m = market_with_offer(30, 100, 0);
    m.update_reputation(B, A, 75).unwrap();
    let p = m.get_user_profile(A);
    assert_eq!(p.reputation_score, 75);
    assert_eq!(p.active_offers, vec![1]);
}

#[test]
fn queries_list_active_offers_by_type() {
    let mut m = EnergyMarketplaceContract::new();
    m.create_offer(A, 10, 1, EnergyType::Solar, 100, 0);
    m.create_offer(B, 10, 1, EnergyType::Wind, 100, 0);
    m.create_offer(A, 10, 1, EnergyType::Solar, 100, 0);
    m.create_offer(C, 10, 1, EnergyType::Solar, 100, 0);
    m.cancel_offer(A, 3).unwrap();
    m.execute_trade(B, 4, 10, 0).unwrap();
    assert_eq!(m.get_active_offers(), vec![1, 2]);
    assert_eq!(m.get_offers_by_type(EnergyType::Solar), vec![1]);
    assert_eq!(m.get_offers_by_type(EnergyType::Wind), vec![2]);
    assert!(m.get_offers_by_type(EnergyType::Hydro).is_empty());
}

#[test]
fn active_count_matches_offers() {
    let mut m = EnergyMarketplaceContract::new();
    for i in 0..5u64 {
        m.create_offer(Identity(i), 10, 1, EnergyType::Other, 100, 0);
    }
    m.cancel_offer(Identity(0), 1).unwrap();
    m.execute_trade(B, 2, 10, 0).unwrap();
    m.execute_trade(B, 3, 5, 0).unwrap();
    let live = (1..=5u64).filter(|i| m.get_offer(*i).unwrap().is_active).count() as u64;
    assert_eq!(m.get_market_status().active_offers, live);
    assert_eq!(m.get_active_offers().len() as u64, live);
    assert_eq!(m.get_market_status().total_energy_traded, 15);
}
