//! Data types of the market: offers, trades, profiles, totals and errors.
use vstd::prelude::*;

verus! {

/// An account of the market, as the host's identity layer names it.
#[derive(Clone, Copy, PartialEq, Eq, Structural, Debug, Hash)]
pub struct Identity(pub u64);

/// Source of the energy on offer.
#[derive(Clone, Copy, PartialEq, Eq, Structural, Debug, Hash)]
pub enum EnergyType {
    Solar,
    Wind,
    Hydro,
    Biomass,
    Other,
}

/// Market-wide totals, kept in step with the offers and trades.
#[derive(Clone, Copy, PartialEq, Eq, Structural, Debug)]
pub struct MarketStatus {
    pub active_offers: u64,
    pub completed_trades: u64,
    pub total_energy_traded: u64,
    pub total_offers_created: u64,
}

/// Storage key of an offer.
#[derive(Clone, Copy, PartialEq, Eq, Structural, Debug, Hash)]
pub enum OfferBook {
    EnergyOffer(u64),
}

/// Storage key of a trade.
#[derive(Clone, Copy, PartialEq, Eq, Structural, Debug, Hash)]
pub enum TradeBook {
    EnergyTrade(u64),
}

/// Storage key of a user profile.
#[derive(Clone, Copy, PartialEq, Eq, Structural, Debug, Hash)]
pub enum UserBook {
    UserProfile(Identity),
}

/// A standing offer to sell energy at a fixed unit price until it expires.
#[derive(Clone, Copy, PartialEq, Eq, Structural, Debug)]
pub struct EnergyOffer {
    pub offer_id: u64,
    pub seller: Identity,
    /// Energy still on offer, in kWh.
    pub energy_amount: u64,
    pub price_per_unit: u64,
    pub energy_type: EnergyType,
    pub creation_time: u64,
    pub expiration_time: u64,
    pub is_active: bool,
}

/// Receipt of energy bought against an offer; never changed once written.
#[derive(Clone, Copy, PartialEq, Eq, Structural, Debug)]
pub struct EnergyTrade {
    pub trade_id: u64,
    pub offer_id: u64,
    pub seller: Identity,
    pub buyer: Identity,
    pub energy_amount: u64,
    pub total_price: u64,
    pub energy_type: EnergyType,
    pub trade_time: u64,
}

/// Totals, reputation and references to the offers and trades of one user.
#[derive(Clone, Debug)]
pub struct UserProfile {
    pub user_address: Identity,
    pub total_energy_sold: u64,
    pub total_energy_bought: u64,
    pub reputation_score: u64,
    pub active_offers: Vec<u64>,
    pub trade_history: Vec<u64>,
}

/// Mathematical value of a [`UserProfile`].
pub struct ProfileModel {
    pub user_address: Identity,
    pub total_energy_sold: u64,
    pub total_energy_bought: u64,
    pub reputation_score: u64,
    pub active_offers: Seq<u64>,
    pub trade_history: Seq<u64>,
}

impl View for UserProfile {
    type V = ProfileModel;

    open spec fn view(&self) -> ProfileModel {
        ProfileModel {
            user_address: self.user_address,
            total_energy_sold: self.total_energy_sold,
            total_energy_bought: self.total_energy_bought,
            reputation_score: self.reputation_score,
            active_offers: self.active_offers@,
            trade_history: self.trade_history@,
        }
    }
}

/// Why an operation was refused. A refused operation changes nothing.
#[derive(Clone, Copy, PartialEq, Eq, Structural, Debug)]
pub enum MarketError {
    Unauthorized,
    NotFound,
    AlreadyInactive,
    OfferExpired,
    OfferInactive,
    InsufficientEnergy,
    InvalidScore,
}

/// Reputation of a user that nobody has rated yet.
pub const DEFAULT_REPUTATION: u64 = 50;

/// Highest reputation score.
pub const MAX_REPUTATION: u64 = 100;

} // verus!
