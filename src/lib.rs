//! State machine of a peer-to-peer energy market: producers list offers,
//! consumers buy against them, and the ledger keeps market totals and
//! per-user profiles consistent with the offers and trades it holds.

pub mod types;
pub mod model;
pub mod marketplace;

pub use types::{
    EnergyOffer, EnergyTrade, EnergyType, Identity, MarketError, MarketStatus, OfferBook,
    TradeBook, UserBook, UserProfile,
};
pub use marketplace::EnergyMarketplaceContract;
