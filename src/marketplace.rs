//! The market ledger: offers, trades, user profiles and totals held in one
//! store, and the operations that move it from one state to the next.
use std::collections::HashMap;
use vstd::prelude::*;
use crate::model::{
    count_active, empty_market, lemma_count_active_bound, lemma_count_active_update, listed_ids, without,
    MarketModel,
};
use crate::types::{
    EnergyOffer, EnergyTrade, EnergyType, Identity, MarketError, MarketStatus, OfferBook,
    ProfileModel, TradeBook, UserBook, UserProfile, DEFAULT_REPUTATION, MAX_REPUTATION,
};

verus! {

broadcast use vstd::std_specs::hash::group_hash_axioms;

/// The store of the market. Offer and trade ids are handed out in sequence
/// from 1; the offer with id `i` sits at index `i - 1`, and so does the trade.
pub struct EnergyMarketplaceContract {
    offers: Vec<EnergyOffer>,
    trades: Vec<EnergyTrade>,
    users: HashMap<u64, UserProfile>,
    status: MarketStatus,
}

/// The profiles of a store keyed by the number of their user.
pub open spec fn users_view(hm: Map<u64, UserProfile>) -> Map<Identity, ProfileModel> {
    Map::new(|u: Identity| hm.contains_key(u.0), |u: Identity| hm[u.0]@)
}

impl View for EnergyMarketplaceContract {
    type V = MarketModel;

    closed spec fn view(&self) -> MarketModel {
        MarketModel {
            offers: self.offers@,
            trades: self.trades@,
            users: users_view(self.users@),
            status: self.status,
        }
    }
}

/// Writing back a profile that was taken out replaces it in the view.
proof fn lemma_users_view_put(hm: Map<u64, UserProfile>, p: UserProfile)
    ensures
        users_view(hm.remove(p.user_address.0).insert(p.user_address.0, p)) == users_view(hm).insert(
            p.user_address,
            p@,
        ),
{
    assert(users_view(hm.remove(p.user_address.0).insert(p.user_address.0, p)) =~= users_view(
        hm,
    ).insert(p.user_address, p@));
}

/// `ids` without `id`, in the same order.
fn remove_id(ids: &Vec<u64>, id: u64) -> (r: Vec<u64>)
    ensures
        r@ == without(ids@, id),
{
    let mut r: Vec<u64> = Vec::new();
    let mut i: usize = 0;
    while i < ids.len()
        invariant
            i <= ids.len(),
            r@ == without(ids@.subrange(0, i as int), id),
        decreases ids.len() - i,
    {
        proof {
            assert(ids@.subrange(0, i + 1).drop_last() =~= ids@.subrange(0, i as int));
        }
        if ids[i] != id {
            r.push(ids[i]);
        }
        i = i + 1;
    }
    proof {
        assert(ids@.subrange(0, ids.len() as int) =~= ids@);
    }
    r
}

/// A copy of `v`.
fn copy_ids(v: &Vec<u64>) -> (r: Vec<u64>)
    ensures
        r@ == v@,
{
    let mut r: Vec<u64> = Vec::new();
    let mut i: usize = 0;
    while i < v.len()
        invariant
            i <= v.len(),
            r@ == v@.subrange(0, i as int),
        decreases v.len() - i,
    {
        r.push(v[i]);
        proof {
            assert(r@ =~= v@.subrange(0, i + 1));
        }
        i = i + 1;
    }
    r
}

impl EnergyMarketplaceContract {
    /// The store is consistent.
    pub open spec fn wf(&self) -> bool {
        self@.inv()
    }

    /// An empty market.
    pub fn new() -> (r: Self)
        ensures
            r.wf(),
            r@ == empty_market(),
    {
        let r = EnergyMarketplaceContract {
            offers: Vec::new(),
            trades: Vec::new(),
            users: HashMap::new(),
            status: MarketStatus {
                active_offers: 0,
                completed_trades: 0,
                total_energy_traded: 0,
                total_offers_created: 0,
            },
        };
        proof {
            assert(r@.offers =~= empty_market().offers);
            assert(r@.trades =~= empty_market().trades);
            assert(r@.users =~= empty_market().users);
        }
        r
    }

    /// Index of the offer that `key` names, if it exists.
    fn find_offer(&self, key: OfferBook) -> (r: Option<usize>)
        ensures
            match key {
                OfferBook::EnergyOffer(id) => match r {
                    Some(i) => self@.offer(id) is Some && i == id - 1,
                    None => self@.offer(id) is None,
                },
            },
    {
        match key {
            OfferBook::EnergyOffer(id) => {
                if id == 0 || id > self.offers.len() as u64 {
                    None
                } else {
                    Some((id - 1) as usize)
                }
            },
        }
    }

    /// Index of the trade that `key` names, if it exists.
    fn find_trade(&self, key: TradeBook) -> (r: Option<usize>)
        ensures
            match key {
                TradeBook::EnergyTrade(id) => match r {
                    Some(i) => self@.trade(id) is Some && i == id - 1,
                    None => self@.trade(id) is None,
                },
            },
    {
        match key {
            TradeBook::EnergyTrade(id) => {
                if id == 0 || id > self.trades.len() as u64 {
                    None
                } else {
                    Some((id - 1) as usize)
                }
            },
        }
    }

    /// Takes the profile that `key` names out of the store, or makes the
    /// default one.
    fn take_profile(&mut self, key: UserBook) -> (p: UserProfile)
        requires
            old(self)@.keyed(),
        ensures
            match key {
                UserBook::UserProfile(user) => {
                    &&& p@ == old(self)@.profile(user)
                    &&& p.user_address == user
                    &&& final(self).users@ == old(self).users@.remove(user.0)
                },
            },
            final(self).offers == old(self).offers,
            final(self).trades == old(self).trades,
            final(self).status == old(self).status,
    {
        match key {
            UserBook::UserProfile(user) => match self.users.remove(&user.0) {
                Some(p) => {
                    proof {
                        assert(old(self)@.users.contains_key(user));
                    }
                    p
                },
                None => UserProfile {
                    user_address: user,
                    total_energy_sold: 0,
                    total_energy_bought: 0,
                    reputation_score: DEFAULT_REPUTATION,
                    active_offers: Vec::new(),
                    trade_history: Vec::new(),
                },
            },
        }
    }

    /// Puts `p` into the store under its user.
    fn store_profile(&mut self, p: UserProfile)
        ensures
            final(self).users@ == old(self).users@.insert(p.user_address.0, p),
            final(self).offers == old(self).offers,
            final(self).trades == old(self).trades,
            final(self).status == old(self).status,
    {
        self.users.insert(p.user_address.0, p);
    }

    /// Closes the active offer `offer_id`.
    fn deactivate(&mut self, offer_id: u64)
        requires
            old(self).wf(),
            old(self)@.offer(offer_id) matches Some(o) && o.is_active,
        ensures
            final(self).wf(),
            final(self)@ == old(self)@.deactivate(offer_id),
    {
        let ghost m = self@;
        let idx = (offer_id - 1) as usize;
        let o = self.offers[idx];
        proof {
            m.lemma_deactivate_inv(offer_id);
            lemma_count_active_update(m.offers, idx as int, EnergyOffer { is_active: false, ..o });
            assert(m.status.active_offers == count_active(m.offers));
        }
        self.offers.set(idx, EnergyOffer { is_active: false, ..o });
        self.status.active_offers = self.status.active_offers - 1;
        let ghost hm = self.users@;
        let mut p = self.take_profile(UserBook::UserProfile(o.seller));
        p.active_offers = remove_id(&p.active_offers, offer_id);
        self.store_profile(p);
        proof {
            lemma_users_view_put(hm, p);
            assert(self@ =~= m.deactivate(offer_id));
        }
    }

    /// Writes trade `t` and adds it to the totals and to the histories of its
    /// seller and its buyer.
    fn record(&mut self, t: EnergyTrade)
        requires
            old(self).wf(),
            t.trade_id == old(self)@.trades.len() + 1,
            1 <= t.offer_id <= old(self)@.offers.len(),
            old(self)@.trades.len() < u64::MAX,
            old(self)@.status.total_energy_traded + t.energy_amount <= u64::MAX,
            old(self)@.profile(t.seller).total_energy_sold + t.energy_amount <= u64::MAX,
            old(self)@.profile(t.buyer).total_energy_bought + t.energy_amount <= u64::MAX,
        ensures
            final(self).wf(),
            final(self)@ == old(self)@.record(t),
    {
        let ghost m = self@;
        proof {
            m.lemma_record_inv(t);
        }
        self.trades.push(t);
        self.status.completed_trades = self.status.completed_trades + 1;
        self.status.total_energy_traded = self.status.total_energy_traded + t.energy_amount;
        let ghost hm0 = self.users@;
        let mut s = self.take_profile(UserBook::UserProfile(t.seller));
        s.total_energy_sold = s.total_energy_sold + t.energy_amount;
        s.trade_history.push(t.trade_id);
        self.store_profile(s);
        proof {
            lemma_users_view_put(hm0, s);
        }
        let ghost hm1 = self.users@;
        let mut b = self.take_profile(UserBook::UserProfile(t.buyer));
        b.total_energy_bought = b.total_energy_bought + t.energy_amount;
        b.trade_history.push(t.trade_id);
        self.store_profile(b);
        proof {
            lemma_users_view_put(hm1, b);
            assert(self@ =~= m.record(t));
        }
    }
    /// Lists a new offer of `seller`, open from `now` for `valid_for`
    /// seconds, and returns its id.
    pub fn create_offer(
        &mut self,
        seller: Identity,
        energy_amount: u64,
        price_per_unit: u64,
        energy_type: EnergyType,
        valid_for: u64,
        now: u64,
    ) -> (offer_id: u64)
        requires
            old(self).wf(),
            old(self)@.create_fits(valid_for, now),
        ensures
            final(self).wf(),
            offer_id == old(self)@.offers.len() + 1,
            final(self)@ == old(self)@.create_offer(
                seller,
                energy_amount,
                price_per_unit,
                energy_type,
                valid_for,
                now,
            ),
    {
        let ghost m = self@;
        proof {
            m.lemma_create_inv(seller, energy_amount, price_per_unit, energy_type, valid_for, now);
            lemma_count_active_bound(m.offers);
        }
        let offer_id: u64 = self.offers.len() as u64 + 1;
        self.offers.push(
            EnergyOffer {
                offer_id,
                seller,
                energy_amount,
                price_per_unit,
                energy_type,
                creation_time: now,
                expiration_time: now + valid_for,
                is_active: true,
            },
        );
        self.status.active_offers = self.status.active_offers + 1;
        self.status.total_offers_created = self.status.total_offers_created + 1;
        let ghost hm = self.users@;
        let mut p = self.take_profile(UserBook::UserProfile(seller));
        p.active_offers.push(offer_id);
        self.store_profile(p);
        proof {
            lemma_users_view_put(hm, p);
            assert(self@ =~= m.create_offer(
                seller,
                energy_amount,
                price_per_unit,
                energy_type,
                valid_for,
                now,
            ));
        }
        offer_id
    }

    /// Buys `energy_amount` of offer `offer_id` for `buyer` at time `now`,
    /// and returns the id of the trade.
    pub fn execute_trade(&mut self, buyer: Identity, offer_id: u64, energy_amount: u64, now: u64) -> (r:
        Result<u64, MarketError>)
        requires
            old(self).wf(),
            old(self)@.trade_fits(buyer, offer_id, energy_amount, now),
        ensures
            final(self).wf(),
            final(self)@ == old(self)@.execute_trade(buyer, offer_id, energy_amount, now),
            r == match old(self)@.trade_error(offer_id, energy_amount, now) {
                Some(e) => Err(e),
                None => Ok((old(self)@.trades.len() + 1) as u64),
            },
    {
        let ghost m = self@;
        let idx = match self.find_offer(OfferBook::EnergyOffer(offer_id)) {
            Some(i) => i,
            None => return Err(MarketError::NotFound),
        };
        let offer = self.offers[idx];
        if !offer.is_active {
            return Err(MarketError::OfferInactive);
        }
        if now > offer.expiration_time {
            return Err(MarketError::OfferExpired);
        }
        if energy_amount > offer.energy_amount {
            return Err(MarketError::InsufficientEnergy);
        }
        let total_price = energy_amount * offer.price_per_unit;
        proof {
            m.lemma_filled_inv(offer_id, energy_amount);
        }
        if energy_amount == offer.energy_amount {
            self.deactivate(offer_id);
        } else {
            self.offers.set(
                idx,
                EnergyOffer { energy_amount: offer.energy_amount - energy_amount, ..offer },
            );
            proof {
                assert(self@ =~= m.filled(offer_id, energy_amount));
            }
        }
        let trade_id: u64 = self.trades.len() as u64 + 1;
        let trade = EnergyTrade {
            trade_id,
            offer_id,
            seller: offer.seller,
            buyer,
            energy_amount,
            total_price,
            energy_type: offer.energy_type,
            trade_time: now,
        };
        proof {
            assert(trade == m.receipt(buyer, offer_id, energy_amount, now));
        }
        self.record(trade);
        Ok(trade_id)
    }

    /// Withdraws the active offer `offer_id` of `seller`.
    pub fn cancel_offer(&mut self, seller: Identity, offer_id: u64) -> (r: Result<(), MarketError>)
        requires
            old(self).wf(),
        ensures
            final(self).wf(),
            final(self)@ == old(self)@.cancel_offer(seller, offer_id),
            r == match old(self)@.cancel_error(seller, offer_id) {
                Some(e) => Err(e),
                None => Ok(()),
            },
    {
        let idx = match self.find_offer(OfferBook::EnergyOffer(offer_id)) {
            Some(i) => i,
            None => return Err(MarketError::NotFound),
        };
        let offer = self.offers[idx];
        if offer.seller != seller {
            return Err(MarketError::Unauthorized);
        }
        if !offer.is_active {
            return Err(MarketError::AlreadyInactive);
        }
        self.deactivate(offer_id);
        Ok(())
    }

    /// Sets the reputation of `user` to `new_score`, on behalf of `admin`.
    /// Any authenticated caller may act as `admin`: no role is checked.
    #[allow(unused_variables)]
    pub fn update_reputation(&mut self, admin: Identity, user: Identity, new_score: u64) -> (r: Result<
        (),
        MarketError,
    >)
        requires
            old(self).wf(),
        ensures
            final(self).wf(),
            final(self)@ == old(self)@.update_reputation(user, new_score),
            r == match crate::model::reputation_error(new_score) {
                Some(e) => Err(e),
                None => Ok(()),
            },
    {
        if new_score > MAX_REPUTATION {
            return Err(MarketError::InvalidScore);
        }
        let ghost m = self@;
        proof {
            m.lemma_reputation_inv(user, new_score);
        }
        let ghost hm = self.users@;
        let mut p = self.take_profile(UserBook::UserProfile(user));
        p.reputation_score = new_score;
        self.store_profile(p);
        proof {
            lemma_users_view_put(hm, p);
            assert(self@ =~= m.update_reputation(user, new_score));
        }
        Ok(())
    }

    /// The market totals.
    pub fn get_market_status(&self) -> (r: MarketStatus)
        ensures
            r == self@.status,
    {
        self.status
    }

    /// The offer with id `offer_id`.
    pub fn get_offer(&self, offer_id: u64) -> (r: Result<EnergyOffer, MarketError>)
        ensures
            r == match self@.offer(offer_id) {
                Some(o) => Ok(o),
                None => Err(MarketError::NotFound),
            },
    {
        match self.find_offer(OfferBook::EnergyOffer(offer_id)) {
            Some(i) => Ok(self.offers[i]),
            None => Err(MarketError::NotFound),
        }
    }

    /// The trade with id `trade_id`.
    pub fn get_trade(&self, trade_id: u64) -> (r: Result<EnergyTrade, MarketError>)
        ensures
            r == match self@.trade(trade_id) {
                Some(t) => Ok(t),
                None => Err(MarketError::NotFound),
            },
    {
        match self.find_trade(TradeBook::EnergyTrade(trade_id)) {
            Some(i) => Ok(self.trades[i]),
            None => Err(MarketError::NotFound),
        }
    }

    /// The profile of `user`, or the default one if nothing was written for
    /// it; the store is not changed either way.
    pub fn get_user_profile(&self, user: Identity) -> (r: UserProfile)
        requires
            self.wf(),
        ensures
            r@ == self@.profile(user),
    {
        match self.users.get(&user.0) {
            Some(p) => {
                proof {
                    assert(self@.users.contains_key(user));
                }
                UserProfile {
                    user_address: p.user_address,
                    total_energy_sold: p.total_energy_sold,
                    total_energy_bought: p.total_energy_bought,
                    reputation_score: p.reputation_score,
                    active_offers: copy_ids(&p.active_offers),
                    trade_history: copy_ids(&p.trade_history),
                }
            },
            None => UserProfile {
                user_address: user,
                total_energy_sold: 0,
                total_energy_bought: 0,
                reputation_score: DEFAULT_REPUTATION,
                active_offers: Vec::new(),
                trade_history: Vec::new(),
            },
        }
    }

    /// Ids of the offers listed under `ty`, in ascending order.
    fn listed_offers(&self, ty: Option<EnergyType>) -> (r: Vec<u64>)
        ensures
            r@ == listed_ids(self@.offers, ty),
    {
        let mut r: Vec<u64> = Vec::new();
        let mut i: usize = 0;
        while i < self.offers.len()
            invariant
                i <= self.offers.len(),
                r@ == listed_ids(self.offers@.subrange(0, i as int), ty),
            decreases self.offers.len() - i,
        {
            proof {
                assert(self.offers@.subrange(0, i + 1).drop_last() =~= self.offers@.subrange(
                    0,
                    i as int,
                ));
            }
            let o = self.offers[i];
            let shown = o.is_active && match ty {
                Some(t) => o.energy_type == t,
                None => true,
            };
            if shown {
                r.push(o.offer_id);
            }
            i = i + 1;
        }
        proof {
            assert(self.offers@.subrange(0, self.offers.len() as int) =~= self.offers@);
        }
        r
    }

    /// Ids of the active offers, in ascending order.
    pub fn get_active_offers(&self) -> (r: Vec<u64>)
        ensures
            r@ == listed_ids(self@.offers, None),
    {
        self.listed_offers(None)
    }

    /// Ids of the active offers of `energy_type`, in ascending order.
    pub fn get_offers_by_type(&self, energy_type: EnergyType) -> (r: Vec<u64>)
        ensures
            r@ == listed_ids(self@.offers, Some(energy_type)),
    {
        self.listed_offers(Some(energy_type))
    }
}

} // verus!
