//! The market as a mathematical value, the transition of each operation on
//! it, and the laws that those transitions obey.
use vstd::prelude::*;
use crate::types::{
    EnergyOffer, EnergyTrade, EnergyType, Identity, MarketError, MarketStatus, ProfileModel,
    DEFAULT_REPUTATION, MAX_REPUTATION,
};

verus! {

/// Everything the market holds: offers and trades in order of their ids
/// (the entry at index `i` has id `i + 1`), the profiles written so far,
/// and the market totals.
pub struct MarketModel {
    pub offers: Seq<EnergyOffer>,
    pub trades: Seq<EnergyTrade>,
    pub users: Map<Identity, ProfileModel>,
    pub status: MarketStatus,
}

/// Profile of a user that nothing has written yet.
pub open spec fn default_profile(user: Identity) -> ProfileModel {
    ProfileModel {
        user_address: user,
        total_energy_sold: 0,
        total_energy_bought: 0,
        reputation_score: DEFAULT_REPUTATION,
        active_offers: Seq::empty(),
        trade_history: Seq::empty(),
    }
}

/// Number of active offers in `s`.
pub open spec fn count_active(s: Seq<EnergyOffer>) -> nat
    decreases s.len(),
{
    if s.len() == 0 {
        0
    } else {
        count_active(s.drop_last()) + if s.last().is_active { 1nat } else { 0nat }
    }
}

/// Sum of the energy of the trades in `s`.
pub open spec fn total_traded(s: Seq<EnergyTrade>) -> nat
    decreases s.len(),
{
    if s.len() == 0 {
        0
    } else {
        total_traded(s.drop_last()) + s.last().energy_amount as nat
    }
}

/// Whether an offer is listed by a query: active, and of the type asked for
/// when one is asked for.
pub open spec fn listed(o: EnergyOffer, ty: Option<EnergyType>) -> bool {
    o.is_active && match ty {
        Some(t) => o.energy_type == t,
        None => true,
    }
}

/// Ids of the offers of `s` that are listed under `ty`, in the order of `s`.
pub open spec fn listed_ids(s: Seq<EnergyOffer>, ty: Option<EnergyType>) -> Seq<u64>
    decreases s.len(),
{
    if s.len() == 0 {
        Seq::empty()
    } else if listed(s.last(), ty) {
        listed_ids(s.drop_last(), ty).push(s.last().offer_id)
    } else {
        listed_ids(s.drop_last(), ty)
    }
}

/// `s` with every occurrence of `id` taken out.
pub open spec fn without(s: Seq<u64>, id: u64) -> Seq<u64>
    decreases s.len(),
{
    if s.len() == 0 {
        s
    } else if s.last() == id {
        without(s.drop_last(), id)
    } else {
        without(s.drop_last(), id).push(s.last())
    }
}

/// The market before any operation.
pub open spec fn empty_market() -> MarketModel {
    MarketModel {
        offers: Seq::empty(),
        trades: Seq::empty(),
        users: Map::empty(),
        status: MarketStatus {
            active_offers: 0,
            completed_trades: 0,
            total_energy_traded: 0,
            total_offers_created: 0,
        },
    }
}

/// Why a reputation score is refused, if it is.
pub open spec fn reputation_error(new_score: u64) -> Option<MarketError> {
    if new_score > MAX_REPUTATION {
        Some(MarketError::InvalidScore)
    } else {
        None
    }
}

impl MarketModel {
    /// The profile of `user`: the stored one, or the default.
    pub open spec fn profile(self, user: Identity) -> ProfileModel {
        if self.users.contains_key(user) {
            self.users[user]
        } else {
            default_profile(user)
        }
    }

    /// The offer with id `id`, if there is one.
    pub open spec fn offer(self, id: u64) -> Option<EnergyOffer> {
        if 1 <= id <= self.offers.len() {
            Some(self.offers[id - 1])
        } else {
            None
        }
    }

    /// The trade with id `id`, if there is one.
    pub open spec fn trade(self, id: u64) -> Option<EnergyTrade> {
        if 1 <= id <= self.trades.len() {
            Some(self.trades[id - 1])
        } else {
            None
        }
    }

    /// Whether offer `id` is active and belongs to `user`.
    pub open spec fn sells(self, user: Identity, id: u64) -> bool {
        self.offer(id) matches Some(o) && o.is_active && o.seller == user
    }

    /// Each stored profile is stored under its own user.
    pub open spec fn keyed(self) -> bool {
        forall|u: Identity| #[trigger] self.users.contains_key(u) ==> self.users[u].user_address == u
    }

    /// What binds offers, trades, profiles and totals together: ids follow
    /// the positions, a user lists exactly the active offers that are
    /// theirs, trades and histories name existing offers and trades, and
    /// the totals are the counts and sums they stand for.
    pub open spec fn inv(self) -> bool {
        &&& forall|i: int| 0 <= i < self.offers.len() ==> #[trigger] self.offers[i].offer_id == i + 1
        &&& forall|i: int| 0 <= i < self.trades.len() ==> #[trigger] self.trades[i].trade_id == i + 1
        &&& self.keyed()
        &&& forall|u: Identity, id: u64|
            #![trigger self.profile(u).active_offers.contains(id)]
            #![trigger self.sells(u, id)]
            self.profile(u).active_offers.contains(id) == self.sells(u, id)
        &&& forall|i: int|
            0 <= i < self.trades.len() ==> 1 <= #[trigger] self.trades[i].offer_id <= self.offers.len()
        &&& forall|u: Identity, id: u64|
            #[trigger] self.profile(u).trade_history.contains(id) ==> 1 <= id <= self.trades.len()
        &&& self.status.active_offers == count_active(self.offers)
        &&& self.status.total_offers_created == self.offers.len()
        &&& self.status.completed_trades == self.trades.len()
        &&& self.status.total_energy_traded == total_traded(self.trades)
    }

    /// `self` with the profile of `p.user_address` replaced by `p`.
    pub open spec fn put_profile(self, p: ProfileModel) -> MarketModel {
        MarketModel { users: self.users.insert(p.user_address, p), ..self }
    }

    /// Whether the ids and the expiration time of a new offer fit in `u64`.
    pub open spec fn create_fits(self, valid_for: u64, now: u64) -> bool {
        &&& self.offers.len() < u64::MAX
        &&& now + valid_for <= u64::MAX
    }

    /// The market after `seller` lists a new offer at time `now`.
    pub open spec fn create_offer(
        self,
        seller: Identity,
        energy_amount: u64,
        price_per_unit: u64,
        energy_type: EnergyType,
        valid_for: u64,
        now: u64,
    ) -> MarketModel {
        let id = (self.offers.len() + 1) as u64;
        let offer = EnergyOffer {
            offer_id: id,
            seller,
            energy_amount,
            price_per_unit,
            energy_type,
            creation_time: now,
            expiration_time: (now + valid_for) as u64,
            is_active: true,
        };
        let p = self.profile(seller);
        MarketModel {
            offers: self.offers.push(offer),
            status: MarketStatus {
                active_offers: (self.status.active_offers + 1) as u64,
                total_offers_created: (self.status.total_offers_created + 1) as u64,
                ..self.status
            },
            ..self
        }.put_profile(ProfileModel { active_offers: p.active_offers.push(id), ..p })
    }

    /// The market with the active offer `id` closed: it no longer counts as
    /// active, and its seller no longer lists it.
    pub open spec fn deactivate(self, id: u64) -> MarketModel {
        let o = self.offers[id - 1];
        let p = self.profile(o.seller);
        MarketModel {
            offers: self.offers.update(id - 1, EnergyOffer { is_active: false, ..o }),
            status: MarketStatus {
                active_offers: (self.status.active_offers - 1) as u64,
                ..self.status
            },
            ..self
        }.put_profile(ProfileModel { active_offers: without(p.active_offers, id), ..p })
    }

    /// Why `seller` may not cancel offer `id`, if there is a reason.
    pub open spec fn cancel_error(self, seller: Identity, id: u64) -> Option<MarketError> {
        match self.offer(id) {
            None => Some(MarketError::NotFound),
            Some(o) => if o.seller != seller {
                Some(MarketError::Unauthorized)
            } else if !o.is_active {
                Some(MarketError::AlreadyInactive)
            } else {
                None
            },
        }
    }

    /// The market after `seller` asks to cancel offer `id`.
    pub open spec fn cancel_offer(self, seller: Identity, id: u64) -> MarketModel {
        if self.cancel_error(seller, id) is Some {
            self
        } else {
            self.deactivate(id)
        }
    }

    /// Why `energy_amount` of offer `id` cannot be bought at time `now`, if
    /// there is a reason.
    pub open spec fn trade_error(self, id: u64, energy_amount: u64, now: u64) -> Option<
        MarketError,
    > {
        match self.offer(id) {
            None => Some(MarketError::NotFound),
            Some(o) => if !o.is_active {
                Some(MarketError::OfferInactive)
            } else if now > o.expiration_time {
                Some(MarketError::OfferExpired)
            } else if energy_amount > o.energy_amount {
                Some(MarketError::InsufficientEnergy)
            } else {
                None
            },
        }
    }

    /// Whether the totals that a trade adds to fit in `u64`.
    pub open spec fn trade_fits(self, buyer: Identity, id: u64, energy_amount: u64, now: u64) -> bool {
        self.trade_error(id, energy_amount, now) is None ==> {
            let o = self.offers[id - 1];
            &&& energy_amount * o.price_per_unit <= u64::MAX
            &&& self.trades.len() < u64::MAX
            &&& self.status.total_energy_traded + energy_amount <= u64::MAX
            &&& self.profile(o.seller).total_energy_sold + energy_amount <= u64::MAX
            &&& self.profile(buyer).total_energy_bought + energy_amount <= u64::MAX
        }
    }

    /// The offer `id` after `energy_amount` of it is bought.
    pub open spec fn filled(self, id: u64, energy_amount: u64) -> MarketModel {
        let o = self.offers[id - 1];
        if energy_amount == o.energy_amount {
            self.deactivate(id)
        } else {
            MarketModel {
                offers: self.offers.update(
                    id - 1,
                    EnergyOffer { energy_amount: (o.energy_amount - energy_amount) as u64, ..o },
                ),
                ..self
            }
        }
    }

    /// The receipt of a trade on offer `id`, as it is written.
    pub open spec fn receipt(self, buyer: Identity, id: u64, energy_amount: u64, now: u64) -> EnergyTrade {
        let o = self.offers[id - 1];
        EnergyTrade {
            trade_id: (self.trades.len() + 1) as u64,
            offer_id: id,
            seller: o.seller,
            buyer,
            energy_amount,
            total_price: (energy_amount * o.price_per_unit) as u64,
            energy_type: o.energy_type,
            trade_time: now,
        }
    }

    /// `self` with trade `t` written: the totals count it, and it stands in
    /// the history of its seller and then of its buyer.
    pub open spec fn record(self, t: EnergyTrade) -> MarketModel {
        let m = MarketModel {
            trades: self.trades.push(t),
            status: MarketStatus {
                completed_trades: (self.status.completed_trades + 1) as u64,
                total_energy_traded: (self.status.total_energy_traded + t.energy_amount) as u64,
                ..self.status
            },
            ..self
        };
        let s = m.profile(t.seller);
        let m1 = m.put_profile(
            ProfileModel {
                total_energy_sold: (s.total_energy_sold + t.energy_amount) as u64,
                trade_history: s.trade_history.push(t.trade_id),
                ..s
            },
        );
        let b = m1.profile(t.buyer);
        m1.put_profile(
            ProfileModel {
                total_energy_bought: (b.total_energy_bought + t.energy_amount) as u64,
                trade_history: b.trade_history.push(t.trade_id),
                ..b
            },
        )
    }

    /// The market after `buyer` asks for `energy_amount` of offer `id` at
    /// time `now`.
    pub open spec fn execute_trade(self, buyer: Identity, id: u64, energy_amount: u64, now: u64) -> MarketModel {
        if self.trade_error(id, energy_amount, now) is Some {
            self
        } else {
            self.filled(id, energy_amount).record(self.receipt(buyer, id, energy_amount, now))
        }
    }

    /// The market after the reputation of `user` is set to `new_score`.
    pub open spec fn update_reputation(self, user: Identity, new_score: u64) -> MarketModel {
        if reputation_error(new_score) is Some {
            self
        } else {
            self.put_profile(ProfileModel { reputation_score: new_score, ..self.profile(user) })
        }
    }
}


/// Adding an offer adds one to the count of active offers when it is active.
pub proof fn lemma_count_active_push(s: Seq<EnergyOffer>, o: EnergyOffer)
    ensures
        count_active(s.push(o)) == count_active(s) + if o.is_active { 1nat } else { 0nat },
{
    assert(s.push(o).drop_last() =~= s);
}

/// Replacing one offer changes the count of active offers by the change in
/// that offer alone.
pub proof fn lemma_count_active_update(s: Seq<EnergyOffer>, i: int, o: EnergyOffer)
    requires
        0 <= i < s.len(),
    ensures
        count_active(s.update(i, o)) + (if s[i].is_active { 1nat } else { 0nat }) == count_active(s)
            + (if o.is_active { 1nat } else { 0nat }),
    decreases s.len(),
{
    let t = s.update(i, o);
    if i == s.len() - 1 {
        assert(t.drop_last() =~= s.drop_last());
    } else {
        assert(t.drop_last() =~= s.drop_last().update(i, o));
        lemma_count_active_update(s.drop_last(), i, o);
    }
}

/// There are no more active offers than offers.
pub proof fn lemma_count_active_bound(s: Seq<EnergyOffer>)
    ensures
        count_active(s) <= s.len(),
    decreases s.len(),
{
    if s.len() > 0 {
        lemma_count_active_bound(s.drop_last());
    }
}

/// Adding a trade adds its energy to the total.
pub proof fn lemma_total_traded_push(s: Seq<EnergyTrade>, t: EnergyTrade)
    ensures
        total_traded(s.push(t)) == total_traded(s) + t.energy_amount,
{
    assert(s.push(t).drop_last() =~= s);
}

/// An id that is taken out is no longer there, and nothing new comes in.
pub proof fn lemma_without(s: Seq<u64>, id: u64)
    ensures
        !without(s, id).contains(id),
        forall|x: u64| #[trigger] without(s, id).contains(x) <==> s.contains(x) && x != id,
    decreases s.len(),
{
    if s.len() > 0 {
        let r = without(s.drop_last(), id);
        lemma_without(s.drop_last(), id);
        assert forall|x: u64| s.contains(x) && x != id implies #[trigger] without(s, id).contains(x) by {
            let j = choose|j: int| 0 <= j < s.len() && s[j] == x;
            if j < s.len() - 1 {
                assert(s.drop_last()[j] == x);
                assert(r.contains(x));
                if s.last() != id {
                    let k = choose|k: int| 0 <= k < r.len() && r[k] == x;
                    assert(r.push(s.last())[k] == x);
                }
            } else {
                assert(r.push(s.last())[r.len() as int] == x);
            }
        }
        assert forall|x: u64| #[trigger] without(s, id).contains(x) implies s.contains(x) && x != id by {
            if r.contains(x) {
                let k = choose|k: int| 0 <= k < r.len() && r[k] == x;
                assert(s.drop_last().contains(x));
                let j = choose|j: int| 0 <= j < s.drop_last().len() && s.drop_last()[j] == x;
                assert(s[j] == x);
            } else if s.last() != id {
                assert(without(s, id) == r.push(s.last()));
                let k = choose|k: int| 0 <= k < r.len() + 1 && r.push(s.last())[k] == x;
                assert(k == r.len());
                assert(s[s.len() - 1] == x);
            }
        }
        if s.last() != id {
            assert(!r.push(s.last()).contains(id)) by {
                if r.push(s.last()).contains(id) {
                    let k = choose|k: int| 0 <= k < r.len() + 1 && r.push(s.last())[k] == id;
                    if k < r.len() {
                        assert(r[k] == id);
                    }
                }
            }
        }
    }
}

/// Adding `x` to a sequence adds `x` and nothing else to what it contains.
pub proof fn lemma_push_contains(s: Seq<u64>, x: u64)
    ensures
        forall|y: u64| #[trigger] s.push(x).contains(y) == (s.contains(y) || y == x),
{
    assert forall|y: u64| #[trigger] s.push(x).contains(y) == (s.contains(y) || y == x) by {
        if s.contains(y) {
            let j = choose|j: int| 0 <= j < s.len() && s[j] == y;
            assert(s.push(x)[j] == y);
        }
        if y == x {
            assert(s.push(x)[s.len() as int] == y);
        }
        if s.push(x).contains(y) {
            let j = choose|j: int| 0 <= j < s.len() + 1 && s.push(x)[j] == y;
            if j < s.len() {
                assert(s[j] == y);
            }
        }
    }
}

impl MarketModel {
    /// Writing a profile changes the profile of its user alone.
    pub proof fn lemma_put_profile(self, p: ProfileModel)
        requires
            self.keyed(),
        ensures
            self.put_profile(p).keyed(),
            forall|u: Identity|
                #[trigger] self.put_profile(p).profile(u) == if u == p.user_address {
                    p
                } else {
                    self.profile(u)
                },
    {
    }

    /// Listing a new offer keeps the invariant.
    pub proof fn lemma_create_inv(
        self,
        seller: Identity,
        energy_amount: u64,
        price_per_unit: u64,
        energy_type: EnergyType,
        valid_for: u64,
        now: u64,
    )
        requires
            self.inv(),
            self.create_fits(valid_for, now),
        ensures
            self.create_offer(seller, energy_amount, price_per_unit, energy_type, valid_for, now).inv(),
    {
        let id = (self.offers.len() + 1) as u64;
        let offer = EnergyOffer {
            offer_id: id,
            seller,
            energy_amount,
            price_per_unit,
            energy_type,
            creation_time: now,
            expiration_time: (now + valid_for) as u64,
            is_active: true,
        };
        let p = self.profile(seller);
        let m1 = MarketModel {
            offers: self.offers.push(offer),
            status: MarketStatus {
                active_offers: (self.status.active_offers + 1) as u64,
                total_offers_created: (self.status.total_offers_created + 1) as u64,
                ..self.status
            },
            ..self
        };
        let q = ProfileModel { active_offers: p.active_offers.push(id), ..p };
        let n = m1.put_profile(q);
        assert(n == self.create_offer(seller, energy_amount, price_per_unit, energy_type, valid_for, now));
        lemma_count_active_push(self.offers, offer);
        lemma_count_active_bound(self.offers);
        lemma_push_contains(p.active_offers, id);
        m1.lemma_put_profile(q);
        assert forall|u: Identity, x: u64|
            #![trigger n.profile(u).active_offers.contains(x)]
            #![trigger n.sells(u, x)]
            n.profile(u).active_offers.contains(x) == n.sells(u, x) by {
            assert(self.profile(u).active_offers.contains(x) == self.sells(u, x));
            if x != id {
                assert(n.sells(u, x) == self.sells(u, x));
            }
        }
        assert forall|u: Identity, x: u64| #[trigger]
            n.profile(u).trade_history.contains(x) implies 1 <= x <= n.trades.len() by {
            assert(self.profile(u).trade_history.contains(x));
        }
        assert forall|i: int| 0 <= i < n.trades.len() implies 1 <= #[trigger] n.trades[i].offer_id
            <= n.offers.len() by {
            assert(1 <= self.trades[i].offer_id <= self.offers.len());
        }
    }

    /// Closing an active offer keeps the invariant.
    pub proof fn lemma_deactivate_inv(self, id: u64)
        requires
            self.inv(),
            self.offer(id) matches Some(o) && o.is_active,
        ensures
            self.deactivate(id).inv(),
    {
        let o = self.offers[id - 1];
        let p = self.profile(o.seller);
        let m1 = MarketModel {
            offers: self.offers.update(id - 1, EnergyOffer { is_active: false, ..o }),
            status: MarketStatus {
                active_offers: (self.status.active_offers - 1) as u64,
                ..self.status
            },
            ..self
        };
        let q = ProfileModel { active_offers: without(p.active_offers, id), ..p };
        let n = m1.put_profile(q);
        assert(n == self.deactivate(id));
        lemma_count_active_update(self.offers, id - 1, EnergyOffer { is_active: false, ..o });
        lemma_without(p.active_offers, id);
        m1.lemma_put_profile(q);
        assert forall|u: Identity, x: u64|
            #![trigger n.profile(u).active_offers.contains(x)]
            #![trigger n.sells(u, x)]
            n.profile(u).active_offers.contains(x) == n.sells(u, x) by {
            assert(self.profile(u).active_offers.contains(x) == self.sells(u, x));
            if x != id {
                assert(n.sells(u, x) == self.sells(u, x));
            }
        }
        assert forall|u: Identity, x: u64| #[trigger]
            n.profile(u).trade_history.contains(x) implies 1 <= x <= n.trades.len() by {
            assert(self.profile(u).trade_history.contains(x));
        }
    }

    /// Selling part or all of an offer keeps the invariant.
    pub proof fn lemma_filled_inv(self, id: u64, energy_amount: u64)
        requires
            self.inv(),
            self.offer(id) matches Some(o) && o.is_active && energy_amount <= o.energy_amount,
        ensures
            self.filled(id, energy_amount).inv(),
            self.filled(id, energy_amount).offers.len() == self.offers.len(),
            self.filled(id, energy_amount).trades == self.trades,
            self.filled(id, energy_amount).status.total_energy_traded == self.status.total_energy_traded,
            forall|u: Identity|
                (#[trigger] self.filled(id, energy_amount).profile(u)).total_energy_sold
                    == self.profile(u).total_energy_sold && self.filled(id, energy_amount).profile(
                    u,
                ).total_energy_bought == self.profile(u).total_energy_bought,
    {
        let o = self.offers[id - 1];
        let n = self.filled(id, energy_amount);
        if energy_amount == o.energy_amount {
            self.lemma_deactivate_inv(id);
            let p = self.profile(o.seller);
            let m1 = MarketModel {
                offers: self.offers.update(id - 1, EnergyOffer { is_active: false, ..o }),
                status: MarketStatus {
                    active_offers: (self.status.active_offers - 1) as u64,
                    ..self.status
                },
                ..self
            };
            m1.lemma_put_profile(ProfileModel { active_offers: without(p.active_offers, id), ..p });
        } else {
            lemma_count_active_update(
                self.offers,
                id - 1,
                EnergyOffer { energy_amount: (o.energy_amount - energy_amount) as u64, ..o },
            );
            assert forall|u: Identity, x: u64|
                #![trigger n.profile(u).active_offers.contains(x)]
                #![trigger n.sells(u, x)]
                n.profile(u).active_offers.contains(x) == n.sells(u, x) by {
                assert(self.profile(u).active_offers.contains(x) == self.sells(u, x));
                assert(n.sells(u, x) == self.sells(u, x));
            }
            assert forall|u: Identity, x: u64| #[trigger]
                n.profile(u).trade_history.contains(x) implies 1 <= x <= n.trades.len() by {
                assert(self.profile(u).trade_history.contains(x));
            }
        }
    }

    /// Writing the next trade keeps the invariant.
    pub proof fn lemma_record_inv(self, t: EnergyTrade)
        requires
            self.inv(),
            t.trade_id == self.trades.len() + 1,
            1 <= t.offer_id <= self.offers.len(),
            self.trades.len() < u64::MAX,
            self.status.total_energy_traded + t.energy_amount <= u64::MAX,
        ensures
            self.record(t).inv(),
    {
        lemma_total_traded_push(self.trades, t);
        let m = MarketModel {
            trades: self.trades.push(t),
            status: MarketStatus {
                completed_trades: (self.status.completed_trades + 1) as u64,
                total_energy_traded: (self.status.total_energy_traded + t.energy_amount) as u64,
                ..self.status
            },
            ..self
        };
        let s = m.profile(t.seller);
        let qs = ProfileModel {
            total_energy_sold: (s.total_energy_sold + t.energy_amount) as u64,
            trade_history: s.trade_history.push(t.trade_id),
            ..s
        };
        let m1 = m.put_profile(qs);
        let b = m1.profile(t.buyer);
        let qb = ProfileModel {
            total_energy_bought: (b.total_energy_bought + t.energy_amount) as u64,
            trade_history: b.trade_history.push(t.trade_id),
            ..b
        };
        let n = m1.put_profile(qb);
        assert(n == self.record(t));
        m.lemma_put_profile(qs);
        m1.lemma_put_profile(qb);
        lemma_push_contains(s.trade_history, t.trade_id);
        lemma_push_contains(b.trade_history, t.trade_id);
        assert forall|u: Identity, x: u64|
            #![trigger n.profile(u).active_offers.contains(x)]
            #![trigger n.sells(u, x)]
            n.profile(u).active_offers.contains(x) == n.sells(u, x) by {
            assert(self.profile(u).active_offers.contains(x) == self.sells(u, x));
            assert(n.profile(u).active_offers == self.profile(u).active_offers);
        }
        assert forall|u: Identity, x: u64| #[trigger]
            n.profile(u).trade_history.contains(x) implies 1 <= x <= n.trades.len() by {
            if x != t.trade_id {
                assert(m1.profile(u).trade_history.contains(x));
                assert(self.profile(u).trade_history.contains(x));
            }
        }
    }

    /// Setting a reputation, or refusing to, keeps the invariant.
    pub proof fn lemma_reputation_inv(self, user: Identity, new_score: u64)
        requires
            self.inv(),
        ensures
            self.update_reputation(user, new_score).inv(),
    {
        if reputation_error(new_score) is None {
            let q = ProfileModel { reputation_score: new_score, ..self.profile(user) };
            let n = self.put_profile(q);
            self.lemma_put_profile(q);
            assert forall|u: Identity, x: u64|
                #![trigger n.profile(u).active_offers.contains(x)]
                #![trigger n.sells(u, x)]
                n.profile(u).active_offers.contains(x) == n.sells(u, x) by {
                assert(self.profile(u).active_offers.contains(x) == self.sells(u, x));
            }
            assert forall|u: Identity, x: u64| #[trigger]
                n.profile(u).trade_history.contains(x) implies 1 <= x <= n.trades.len() by {
                assert(self.profile(u).trade_history.contains(x));
            }
        }
    }

    /// A trade, or its refusal, keeps the invariant.
    pub proof fn lemma_trade_inv(self, buyer: Identity, id: u64, energy_amount: u64, now: u64)
        requires
            self.inv(),
            self.trade_fits(buyer, id, energy_amount, now),
        ensures
            self.execute_trade(buyer, id, energy_amount, now).inv(),
    {
        if self.trade_error(id, energy_amount, now) is None {
            let f = self.filled(id, energy_amount);
            self.lemma_filled_inv(id, energy_amount);
            f.lemma_record_inv(self.receipt(buyer, id, energy_amount, now));
        }
    }
}


/// One operation on the market, with its arguments.
pub enum MarketOp {
    CreateOffer {
        seller: Identity,
        energy_amount: u64,
        price_per_unit: u64,
        energy_type: EnergyType,
        valid_for: u64,
        now: u64,
    },
    ExecuteTrade { buyer: Identity, offer_id: u64, energy_amount: u64, now: u64 },
    CancelOffer { seller: Identity, offer_id: u64 },
    UpdateReputation { user: Identity, new_score: u64 },
}

impl MarketModel {
    /// The market after `op`.
    pub open spec fn step(self, op: MarketOp) -> MarketModel {
        match op {
            MarketOp::CreateOffer {
                seller,
                energy_amount,
                price_per_unit,
                energy_type,
                valid_for,
                now,
            } => self.create_offer(seller, energy_amount, price_per_unit, energy_type, valid_for, now),
            MarketOp::ExecuteTrade { buyer, offer_id, energy_amount, now } => self.execute_trade(
                buyer,
                offer_id,
                energy_amount,
                now,
            ),
            MarketOp::CancelOffer { seller, offer_id } => self.cancel_offer(seller, offer_id),
            MarketOp::UpdateReputation { user, new_score } => self.update_reputation(user, new_score),
        }
    }

    /// Whether the numbers that `op` computes fit in `u64`.
    pub open spec fn step_fits(self, op: MarketOp) -> bool {
        match op {
            MarketOp::CreateOffer { valid_for, now, .. } => self.create_fits(valid_for, now),
            MarketOp::ExecuteTrade { buyer, offer_id, energy_amount, now } => self.trade_fits(
                buyer,
                offer_id,
                energy_amount,
                now,
            ),
            _ => true,
        }
    }

    /// The market after the operations of `ops`, in order.
    pub open spec fn run(self, ops: Seq<MarketOp>) -> MarketModel
        decreases ops.len(),
    {
        if ops.len() == 0 {
            self
        } else {
            self.run(ops.drop_last()).step(ops.last())
        }
    }

    /// Whether every operation of `ops` fits in `u64` where it is applied.
    pub open spec fn run_fits(self, ops: Seq<MarketOp>) -> bool
        decreases ops.len(),
    {
        ops.len() == 0 || (self.run_fits(ops.drop_last()) && self.run(ops.drop_last()).step_fits(
            ops.last(),
        ))
    }

    /// Every operation keeps the invariant.
    pub proof fn lemma_step_inv(self, op: MarketOp)
        requires
            self.inv(),
            self.step_fits(op),
        ensures
            self.step(op).inv(),
    {
        match op {
            MarketOp::CreateOffer {
                seller,
                energy_amount,
                price_per_unit,
                energy_type,
                valid_for,
                now,
            } => self.lemma_create_inv(
                seller,
                energy_amount,
                price_per_unit,
                energy_type,
                valid_for,
                now,
            ),
            MarketOp::ExecuteTrade { buyer, offer_id, energy_amount, now } => self.lemma_trade_inv(
                buyer,
                offer_id,
                energy_amount,
                now,
            ),
            MarketOp::CancelOffer { seller, offer_id } => {
                if self.cancel_error(seller, offer_id) is None {
                    self.lemma_deactivate_inv(offer_id);
                }
            },
            MarketOp::UpdateReputation { user, new_score } => self.lemma_reputation_inv(
                user,
                new_score,
            ),
        }
    }

    /// Every sequence of operations keeps the invariant.
    pub proof fn lemma_run_inv(self, ops: Seq<MarketOp>)
        requires
            self.inv(),
            self.run_fits(ops),
        ensures
            self.run(ops).inv(),
        decreases ops.len(),
    {
        if ops.len() > 0 {
            self.lemma_run_inv(ops.drop_last());
            self.run(ops.drop_last()).lemma_step_inv(ops.last());
        }
    }
}

/// Whatever operations run on a new market, the count of active offers in
/// the totals is the number of offers that are active, and the whole
/// invariant holds.
pub proof fn law_active_offers_counted(ops: Seq<MarketOp>)
    requires
        empty_market().run_fits(ops),
    ensures
        empty_market().run(ops).status.active_offers == count_active(empty_market().run(ops).offers),
        empty_market().run(ops).inv(),
{
    empty_market().lemma_run_inv(ops);
}

/// No operation takes back or reuses an id: offers and trades are only ever
/// added, each new one with the id after the last, and the count of offers
/// created never falls. Written trades never change; a closed offer never
/// changes again, and the energy left on an offer never grows.
pub proof fn law_history_kept(m: MarketModel, op: MarketOp)
    requires
        m.inv(),
        m.step_fits(op),
    ensures
        ({
            let n = m.step(op);
            &&& n.offers.len() >= m.offers.len()
            &&& n.trades.len() >= m.trades.len()
            &&& n.status.total_offers_created >= m.status.total_offers_created
            &&& forall|i: int|
                0 <= i < m.offers.len() ==> {
                    &&& #[trigger] n.offers[i].offer_id == m.offers[i].offer_id
                    &&& n.offers[i].energy_amount <= m.offers[i].energy_amount
                    &&& !m.offers[i].is_active ==> n.offers[i] == m.offers[i]
                }
            &&& forall|i: int| 0 <= i < m.trades.len() ==> #[trigger] n.trades[i] == m.trades[i]
            &&& forall|i: int|
                m.offers.len() <= i < n.offers.len() ==> {
                    &&& #[trigger] n.offers[i].offer_id == i + 1
                    &&& forall|j: int| 0 <= j < m.offers.len() ==> m.offers[j].offer_id < n.offers[i].offer_id
                }
            &&& forall|i: int|
                m.trades.len() <= i < n.trades.len() ==> {
                    &&& #[trigger] n.trades[i].trade_id == i + 1
                    &&& forall|j: int| 0 <= j < m.trades.len() ==> m.trades[j].trade_id < n.trades[i].trade_id
                }
            &&& op is CreateOffer ==> n.offers.len() == m.offers.len() + 1
                && n.status.total_offers_created == m.status.total_offers_created + 1
        }),
{
    m.lemma_step_inv(op);
}

/// Cancelling an offer that does not exist fails with `NotFound`; once a
/// cancel has gone through, cancelling again fails with `AlreadyInactive`.
pub proof fn law_cancel_once(m: MarketModel, seller: Identity, offer_id: u64)
    requires
        m.inv(),
    ensures
        m.offer(offer_id) is None ==> m.cancel_error(seller, offer_id) == Some(MarketError::NotFound),
        m.cancel_error(seller, offer_id) is None ==> m.cancel_offer(seller, offer_id).cancel_error(
            seller,
            offer_id,
        ) == Some(MarketError::AlreadyInactive),
{
}

/// Buying all that is left of an offer closes it and takes it off its
/// seller's list; buying less leaves it open with exactly that much less.
pub proof fn law_trade_fills(m: MarketModel, buyer: Identity, offer_id: u64, energy_amount: u64, now: u64)
    requires
        m.inv(),
        m.trade_fits(buyer, offer_id, energy_amount, now),
        m.trade_error(offer_id, energy_amount, now) is None,
    ensures
        ({
            let o = m.offers[offer_id - 1];
            let n = m.execute_trade(buyer, offer_id, energy_amount, now);
            &&& energy_amount == o.energy_amount ==> !n.offers[offer_id - 1].is_active
                && !n.profile(o.seller).active_offers.contains(offer_id)
            &&& energy_amount < o.energy_amount ==> n.offers[offer_id - 1].is_active
                && n.offers[offer_id - 1].energy_amount == o.energy_amount - energy_amount
        }),
{
    let o = m.offers[offer_id - 1];
    let p = m.profile(o.seller);
    lemma_without(p.active_offers, offer_id);
}

/// An active offer past its expiration time cannot be bought: the trade
/// fails with `OfferExpired` and changes nothing.
pub proof fn law_expired(m: MarketModel, buyer: Identity, offer_id: u64, energy_amount: u64, now: u64)
    requires
        m.offer(offer_id) matches Some(o) && o.is_active && now > o.expiration_time,
    ensures
        m.trade_error(offer_id, energy_amount, now) == Some(MarketError::OfferExpired),
        m.execute_trade(buyer, offer_id, energy_amount, now) == m,
{
}

/// A reputation score is refused exactly when it is above 100; a score that
/// is taken is what the profile then holds.
pub proof fn law_reputation_bounds(m: MarketModel, user: Identity, new_score: u64)
    requires
        m.inv(),
    ensures
        reputation_error(new_score) == Some(MarketError::InvalidScore) <==> new_score > 100,
        reputation_error(new_score) is None <==> new_score <= 100,
        new_score <= 100 ==> m.update_reputation(user, new_score).profile(user).reputation_score
            == new_score,
        new_score > 100 ==> m.update_reputation(user, new_score) == m,
{
}

} // verus!
