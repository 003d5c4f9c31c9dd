use vstd::prelude::*;

use crate::model::asset_pair::AssetPair;
use crate::model::json_rpc::JsonRpcResponse;
use crate::model::pool_price::PoolPrice;
use crate::model::price_update::PriceUpdate;
use crate::pool_info_provider::registry_map::{
    id_find, id_insert, id_lookup, pair_find, pair_insert, pair_lookup,
};

verus! {

/// A subscribe frame to be written to the socket: the correlation id and
/// the pair's symbols, as the `cf_subscribe_pool_price` request carries them.
pub struct SubscribeFrame {
    pub request_id: String,
    pub from_asset: String,
    pub to_asset: String,
}

/// A protocol failure: an inbound frame names a correlation id the registry
/// never issued. Fatal to the actor's loop.
#[derive(Clone, Copy, PartialEq, Eq, Structural, Debug)]
pub enum ProtocolError {
    UnknownRequestId,
    UnknownSubscription,
}

/// Relies on rand::random: a process-wide generator draws an arbitrary i32,
/// rendered in decimal as the correlation id. Nothing is promised of the
/// value; callers work with any id.
#[verifier::external_body]
fn random_request_id() -> String {
    rand::random::<i32>().to_string()
}

/// The connection actor's registry: pair to pending-request-id to
/// subscription-id mappings, and each pair's latest-price broadcast state.
/// One instance lives inside the actor's loop; nothing outside it touches
/// the maps.
pub struct SubscriptionRegistry {
    /// Request id to the pair whose subscription it asked for. Entries are
    /// kept after acknowledgement.
    pub request_id_map: Vec<(String, AssetPair)>,
    /// Subscription id to pair, recorded when an acknowledgement names one.
    pub subscription_map: Vec<(String, AssetPair)>,
    /// Each subscribed pair's latest pushed price; none until a push arrives.
    pub price_states: Vec<(AssetPair, Option<PriceUpdate>)>,
}

impl SubscriptionRegistry {
    /// The pair a pending request id resolves to.
    pub open spec fn request_pair(&self, id: Seq<char>) -> Option<AssetPair> {
        id_lookup(self.request_id_map@, id)
    }

    /// The pair a subscription id resolves to.
    pub open spec fn subscription_pair(&self, id: Seq<char>) -> Option<AssetPair> {
        id_lookup(self.subscription_map@, id)
    }

    /// A pair's broadcast slot: absent before subscribe, then the latest
    /// pushed price or none while no push has arrived.
    pub open spec fn price_state(&self, k: (Seq<char>, Seq<char>)) -> Option<Option<PriceUpdate>> {
        pair_lookup(self.price_states@, k)
    }

    /// Whether a subscribe has been issued for the pair.
    pub open spec fn subscribed(&self, k: (Seq<char>, Seq<char>)) -> bool {
        self.price_state(k) is Some
    }

    /// Every pair a request id or a subscription id resolves to has a
    /// broadcast slot.
    pub open spec fn wf(&self) -> bool {
        &&& forall|id: Seq<char>|
            (#[trigger] id_lookup(self.request_id_map@, id)) matches Some(p) ==> self.subscribed(
                p.key(),
            )
        &&& forall|id: Seq<char>|
            (#[trigger] id_lookup(self.subscription_map@, id)) matches Some(p) ==> self.subscribed(
                p.key(),
            )
    }

    pub fn new() -> (r: SubscriptionRegistry)
        ensures
            r.wf(),
            forall|id: Seq<char>| (#[trigger] r.request_pair(id)) is None,
            forall|id: Seq<char>| (#[trigger] r.subscription_pair(id)) is None,
            forall|k: (Seq<char>, Seq<char>)| (#[trigger] r.price_state(k)) is None,
    {
        SubscriptionRegistry {
            request_id_map: Vec::new(),
            subscription_map: Vec::new(),
            price_states: Vec::new(),
        }
    }

    /// What serving *Subscribe(pair)* does: a no-op when the pair already
    /// has a broadcast slot, else one slot is allocated, the request is
    /// recorded under the frame's id, and exactly one frame is emitted.
    pub open spec fn subscribe_step(
        pre: Self,
        post: Self,
        pair: AssetPair,
        emitted: Option<SubscribeFrame>,
    ) -> bool {
        match emitted {
            Option::None => pre.subscribed(pair.key()) && post == pre,
            Option::Some(f) => {
                &&& !pre.subscribed(pair.key())
                &&& f.from_asset@ == pair.from@
                &&& f.to_asset@ == pair.to@
                &&& post.price_state(pair.key()) == Some(Option::<PriceUpdate>::None)
                &&& forall|k2: (Seq<char>, Seq<char>)|
                    k2 != pair.key() ==> post.price_state(k2) == pre.price_state(k2)
                &&& (post.request_pair(f.request_id@) matches Some(p) && p.key() == pair.key())
                &&& forall|id2: Seq<char>|
                    id2 != f.request_id@ ==> post.request_pair(id2) == pre.request_pair(id2)
                &&& post.subscription_map == pre.subscription_map
            },
        }
    }

    /// Serve *Subscribe(pair)* with a given correlation id.
    pub fn handle_subscribe(&mut self, asset_pair: &AssetPair, request_id: String) -> (emitted:
        Option<SubscribeFrame>)
        requires
            old(self).wf(),
        ensures
            final(self).wf(),
            Self::subscribe_step(*old(self), *final(self), *asset_pair, emitted),
            emitted matches Some(f) ==> f.request_id@ == request_id@,
    {
        if self.has_price_stream(asset_pair) {
            return None;
        }
        pair_insert(&mut self.price_states, asset_pair.clone(), None);
        id_insert(&mut self.request_id_map, request_id.clone(), asset_pair.clone());
        Some(
            SubscribeFrame {
                request_id,
                from_asset: asset_pair.from.clone(),
                to_asset: asset_pair.to.clone(),
            },
        )
    }

    /// Serve *Subscribe(pair)*, drawing a fresh random correlation id.
    pub fn subscribe_pool_price_updates(&mut self, asset_pair: &AssetPair) -> (emitted: Option<
        SubscribeFrame,
    >)
        requires
            old(self).wf(),
        ensures
            final(self).wf(),
            Self::subscribe_step(*old(self), *final(self), *asset_pair, emitted),
    {
        let request_id = random_request_id();
        self.handle_subscribe(asset_pair, request_id)
    }

    /// What an acknowledgement does: resolve the pair by the request id it
    /// answers and record the assigned subscription id; the request-id entry
    /// is retained. An unknown request id changes nothing and is fatal.
    pub open spec fn ack_step(pre: Self, post: Self, id: Seq<char>, sub: Seq<char>, ok: bool) -> bool {
        if ok {
            &&& pre.request_pair(id) is Some
            &&& (post.subscription_pair(sub) matches Some(q) && q.key() == pre.request_pair(
                id,
            )->Some_0.key())
            &&& forall|id2: Seq<char>|
                id2 != sub ==> post.subscription_pair(id2) == pre.subscription_pair(id2)
            &&& post.request_id_map == pre.request_id_map
            &&& post.price_states == pre.price_states
        } else {
            pre.request_pair(id) is None && post == pre
        }
    }

    /// Serve a request acknowledgement frame.
    pub fn handle_ack(&mut self, response: &JsonRpcResponse) -> (r: Result<(), ProtocolError>)
        requires
            old(self).wf(),
        ensures
            final(self).wf(),
            r is Ok <==> old(self).request_pair(response.id@) is Some,
            Self::ack_step(*old(self), *final(self), response.id@, response.result@, r is Ok),
            r is Err ==> r->Err_0 == ProtocolError::UnknownRequestId,
    {
        let pair = match id_find(&self.request_id_map, &response.id) {
            Option::Some(p) => p.clone(),
            Option::None => {
                return Err(ProtocolError::UnknownRequestId);
            },
        };
        id_insert(&mut self.subscription_map, response.result.clone(), pair);
        Ok(())
    }

    /// What a push update does: resolve the pair by subscription id and
    /// replace that pair's broadcast value; no other pair's state moves.
    /// An unknown subscription id changes nothing and is fatal.
    pub open spec fn push_step(
        pre: Self,
        post: Self,
        sub: Seq<char>,
        price: Seq<char>,
        sqrt_price: Seq<char>,
        tick: int,
        ok: bool,
    ) -> bool {
        if ok {
            &&& pre.subscription_pair(sub) matches Some(p)
            &&& {
                let pk = pre.subscription_pair(sub)->Some_0.key();
                &&& (post.price_state(pk) matches Some(slot) && (slot matches Some(u) && u.model()
                    == (pk, price, sqrt_price, tick)))
                &&& forall|k2: (Seq<char>, Seq<char>)|
                    k2 != pk ==> post.price_state(k2) == pre.price_state(k2)
                &&& post.request_id_map == pre.request_id_map
                &&& post.subscription_map == pre.subscription_map
            }
        } else {
            pre.subscription_pair(sub) is None && post == pre
        }
    }

    /// Serve a pushed pool-price frame. On success the new broadcast value
    /// is returned, so the owning loop can hand it to the pair's readers.
    pub fn handle_push(&mut self, frame: &PoolPrice) -> (r: Result<PriceUpdate, ProtocolError>)
        requires
            old(self).wf(),
        ensures
            final(self).wf(),
            r is Ok <==> old(self).subscription_pair(frame.params.subscription@) is Some,
            Self::push_step(
                *old(self),
                *final(self),
                frame.params.subscription@,
                frame.params.result.price@,
                frame.params.result.sqrt_price@,
                frame.params.result.tick as int,
                r is Ok,
            ),
            r matches Ok(u) ==> u.model() == (
                old(self).subscription_pair(frame.params.subscription@)->Some_0.key(),
                frame.params.result.price@,
                frame.params.result.sqrt_price@,
                frame.params.result.tick as int,
            ),
            r is Err ==> r->Err_0 == ProtocolError::UnknownSubscription,
    {
        let pair = match id_find(&self.subscription_map, &frame.params.subscription) {
            Option::Some(p) => p.clone(),
            Option::None => {
                return Err(ProtocolError::UnknownSubscription);
            },
        };
        let update = PriceUpdate {
            asset_pair: pair.clone(),
            price: frame.params.result.price.clone(),
            sqrt_price: frame.params.result.sqrt_price.clone(),
            tick: frame.params.result.tick,
        };
        let returned = update.clone();
        pair_insert(&mut self.price_states, pair, Some(update));
        Ok(returned)
    }

    /// Serve *GetLatest(pair)*: the current broadcast value, or none if the
    /// pair was never subscribed or no push has arrived yet.
    pub fn get_latest_pool_price(&self, asset_pair: &AssetPair) -> (r: Option<PriceUpdate>)
        ensures
            match self.price_state(asset_pair.key()) {
                Option::Some(slot) => match slot {
                    Option::Some(u) => r matches Some(v) && v.model() == u.model(),
                    Option::None => r is None,
                },
                Option::None => r is None,
            },
    {
        match pair_find(&self.price_states, asset_pair) {
            Option::Some(slot) => match slot {
                Option::Some(u) => Some(u.clone()),
                Option::None => None,
            },
            Option::None => None,
        }
    }

    /// Serve *GetStream(pair)*: whether a broadcast slot exists for the
    /// pair, so a fresh reader handle can be taken on it.
    pub fn has_price_stream(&self, asset_pair: &AssetPair) -> (r: bool)
        ensures
            r == self.subscribed(asset_pair.key()),
    {
        match pair_find(&self.price_states, asset_pair) {
            Option::Some(_) => true,
            Option::None => false,
        }
    }
}

/// Subscribing to one pair twice emits exactly one subscribe frame: the
/// first call emits it, the second finds the pair subscribed and emits none.
pub proof fn lemma_subscribe_twice_emits_once(
    r0: SubscriptionRegistry,
    r1: SubscriptionRegistry,
    r2: SubscriptionRegistry,
    pair: AssetPair,
    e1: Option<SubscribeFrame>,
    e2: Option<SubscribeFrame>,
)
    requires
        !r0.subscribed(pair.key()),
        SubscriptionRegistry::subscribe_step(r0, r1, pair, e1),
        SubscriptionRegistry::subscribe_step(r1, r2, pair, e2),
    ensures
        e1 is Some,
        e2 is None,
        r2 == r1,
{
}

/// A push update naming a subscription id the registry never recorded is an
/// error and leaves every pair's state untouched.
pub proof fn lemma_unknown_push_changes_nothing(
    pre: SubscriptionRegistry,
    post: SubscriptionRegistry,
    sub: Seq<char>,
    price: Seq<char>,
    sqrt_price: Seq<char>,
    tick: int,
    ok: bool,
)
    requires
        pre.subscription_pair(sub) is None,
        SubscriptionRegistry::push_step(pre, post, sub, price, sqrt_price, tick, ok),
    ensures
        !ok,
        post == pre,
{
}

/// An acknowledgement tying a pending request's pair to a subscription id,
/// followed by a push naming that id, leaves exactly the pushed price as the
/// pair's latest value.
pub proof fn lemma_ack_then_push_updates_pair(
    r0: SubscriptionRegistry,
    r1: SubscriptionRegistry,
    r2: SubscriptionRegistry,
    id: Seq<char>,
    sub: Seq<char>,
    price: Seq<char>,
    sqrt_price: Seq<char>,
    tick: int,
    pk: (Seq<char>, Seq<char>),
)
    requires
        r0.request_pair(id) matches Some(p) && p.key() == pk,
        SubscriptionRegistry::ack_step(r0, r1, id, sub, true),
        SubscriptionRegistry::push_step(r1, r2, sub, price, sqrt_price, tick, true),
    ensures
        r2.price_state(pk) matches Some(slot) && (slot matches Some(u) && u.model() == (
            pk,
            price,
            sqrt_price,
            tick,
        )),
{
    assert(r1.subscription_pair(sub)->Some_0.key() == pk);
}

} // verus!
