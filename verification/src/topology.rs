//! The mix-network topology: the nodes the directory knows, validation of
//! their layering, and random route selection through the layers.

use std::collections::HashMap;

use itertools::Itertools;
use vstd::prelude::*;

pub mod coco;
pub mod gateway;
pub mod mix;
pub mod provider;

verus! {

/// The longest route the wire format admits; a mix node's layer must leave
/// room for one more hop after the mixes.
pub const MAX_PATH_LENGTH: u64 = 5;

/// Why a topology cannot be used as it stands.
#[derive(Debug, PartialEq, Eq)]
pub enum NymTopologyError {
    InvalidMixLayerError,
    MissingLayerError(Vec<u64>),
    NonExistentGatewayError,
}

/// What base58 decoding of a string onto a 32-byte zero-filled buffer yields:
/// the buffer with the decoded bytes at the front, or `None` when the input
/// is not base58 or decodes to more than 32 bytes.
pub uninterp spec fn b58_key_bytes(s: Seq<char>) -> Option<Seq<u8>>;

/// The base58 encoding of a byte string, with the default alphabet.
pub uninterp spec fn b58_string(b: Seq<u8>) -> Seq<char>;

/// Relies on bs58::decode(..).onto(..): decoding with the default alphabet is
/// a function of the input string alone; onto a fixed buffer it writes the
/// decoded bytes at the front, leaves the rest untouched, and reports an
/// error when the input has a non-alphabet character or needs more room.
#[verifier::external_body]
pub(crate) fn decode_key_onto(s: &String) -> (r: Option<Vec<u8>>)
    ensures
        match r {
            Some(v) => b58_key_bytes(s@) == Some(v@) && v@.len() == 32,
            None => b58_key_bytes(s@) is None,
        },
{
    let mut buf = [0u8; 32];
    match bs58::decode(s.as_str()).onto(&mut buf) {
        Ok(_) => Some(buf.to_vec()),
        Err(_) => None,
    }
}

/// Relies on bs58::encode(..).into_string(): encoding with the default
/// alphabet depends on the input bytes alone.
#[verifier::external_body]
pub(crate) fn encode_to_base58(b: &Vec<u8>) -> (r: String)
    ensures
        r@ == b58_string(b@),
{
    bs58::encode(b.as_slice()).into_string()
}

/// Relies on rand::random_range: a value drawn from the given range. All
/// that is promised of any outcome is that it lies in the range; the range
/// must not be empty, since the call panics on one.
#[verifier::external_body]
pub(crate) fn random_index(len: usize) -> (r: usize)
    requires
        len > 0,
    ensures
        r < len,
{
    rand::random_range(0..len)
}

/// Exactly the mix nodes that sit in `layer`, in order.
pub open spec fn layer_nodes(mixes: Seq<mix::Node>, layer: u64) -> Seq<mix::Node>
    decreases mixes.len(),
{
    if mixes.len() == 0 {
        Seq::empty()
    } else {
        let rest = layer_nodes(mixes.drop_last(), layer);
        if mixes.last().layer == layer {
            rest.push(mixes.last())
        } else {
            rest
        }
    }
}

/// The highest layer any mix node sits in; zero when there are none.
pub open spec fn highest_layer(mixes: Seq<mix::Node>) -> u64
    decreases mixes.len(),
{
    if mixes.len() == 0 {
        0
    } else {
        let rest = highest_layer(mixes.drop_last());
        if mixes.last().layer > rest {
            mixes.last().layer
        } else {
            rest
        }
    }
}

/// Every mix node's layer leaves room for the final hop.
pub open spec fn valid_mix_layers(mixes: Seq<mix::Node>) -> bool {
    forall|i: int| 0 <= i < mixes.len() ==> mixes[i].layer <= MAX_PATH_LENGTH
}

/// The layers from 1 up to `l` that no mix node sits in, in increasing order.
pub open spec fn missing_layers_upto(mixes: Seq<mix::Node>, l: nat) -> Seq<u64>
    decreases l,
{
    if l == 0 {
        Seq::empty()
    } else {
        let rest = missing_layers_upto(mixes, (l - 1) as nat);
        if layer_nodes(mixes, l as u64).len() == 0 {
            rest.push(l as u64)
        } else {
            rest
        }
    }
}

/// The layers from 1 up to the highest occupied one that no mix node sits in.
pub open spec fn missing_layers_spec(mixes: Seq<mix::Node>) -> Seq<u64> {
    missing_layers_upto(mixes, highest_layer(mixes) as nat)
}

/// A topology whose layering can carry traffic: layers within bounds and no
/// gap between layer 1 and the highest occupied layer.
pub open spec fn layers_usable(mixes: Seq<mix::Node>) -> bool {
    valid_mix_layers(mixes) && missing_layers_spec(mixes).len() == 0
}

pub proof fn lemma_highest_is_max(mixes: Seq<mix::Node>)
    ensures
        forall|i: int| 0 <= i < mixes.len() ==> mixes[i].layer <= highest_layer(mixes),
    decreases mixes.len(),
{
    if mixes.len() > 0 {
        lemma_highest_is_max(mixes.drop_last());
        assert forall|i: int|
            0 <= i < mixes.len() implies mixes[i].layer <= highest_layer(mixes) by {
            if i < mixes.len() - 1 {
                assert(mixes.drop_last()[i] == mixes[i]);
                assert(mixes.drop_last()[i].layer <= highest_layer(mixes.drop_last()));
            } else {
                assert(mixes[i] == mixes.last());
            }
        }
    }
}

pub proof fn lemma_highest_bounded(mixes: Seq<mix::Node>, bound: u64)
    requires
        forall|i: int| 0 <= i < mixes.len() ==> mixes[i].layer <= bound,
    ensures
        highest_layer(mixes) <= bound,
    decreases mixes.len(),
{
    if mixes.len() > 0 {
        assert(forall|i: int|
            0 <= i < mixes.len() - 1 ==> mixes[i] == #[trigger] mixes.drop_last()[i]);
        lemma_highest_bounded(mixes.drop_last(), bound);
    }
}

pub proof fn lemma_no_layer_above_highest(mixes: Seq<mix::Node>, l: u64)
    requires
        l > highest_layer(mixes),
    ensures
        layer_nodes(mixes, l).len() == 0,
    decreases mixes.len(),
{
    if mixes.len() > 0 {
        assert(highest_layer(mixes.drop_last()) <= highest_layer(mixes));
        lemma_no_layer_above_highest(mixes.drop_last(), l);
    }
}

/// The directory's view of the whole mix network: every node it knows, by
/// role.
#[derive(Debug)]
pub struct NymTopology {
    pub mix_nodes: Vec<mix::Node>,
    pub mix_provider_nodes: Vec<provider::Node>,
    pub coco_nodes: Vec<coco::Node>,
    pub gateway_nodes: Vec<gateway::Node>,
}

impl NymTopology {
    pub fn new_from_nodes(
        mix_nodes: Vec<mix::Node>,
        mix_provider_nodes: Vec<provider::Node>,
        coco_nodes: Vec<coco::Node>,
        gateway_nodes: Vec<gateway::Node>,
    ) -> (t: NymTopology)
        ensures
            t.mix_nodes == mix_nodes,
            t.mix_provider_nodes == mix_provider_nodes,
            t.coco_nodes == coco_nodes,
            t.gateway_nodes == gateway_nodes,
    {
        NymTopology { mix_nodes, mix_provider_nodes, coco_nodes, gateway_nodes }
    }

    pub fn mix_nodes(&self) -> (r: &Vec<mix::Node>)
        ensures
            r == &self.mix_nodes,
    {
        &self.mix_nodes
    }

    pub fn providers(&self) -> (r: &Vec<provider::Node>)
        ensures
            r == &self.mix_provider_nodes,
    {
        &self.mix_provider_nodes
    }

    pub fn gateways(&self) -> (r: &Vec<gateway::Node>)
        ensures
            r == &self.gateway_nodes,
    {
        &self.gateway_nodes
    }

    pub fn coco_nodes(&self) -> (r: &Vec<coco::Node>)
        ensures
            r == &self.coco_nodes,
    {
        &self.coco_nodes
    }

    /// Groups the mix nodes by layer and checks the grouping is usable: no
    /// node above `MAX_PATH_LENGTH`, and no empty layer between 1 and the
    /// highest occupied one. The map holds a key exactly for the occupied
    /// layers, each with that layer's nodes in directory order.
    pub fn make_layered_topology(&self) -> (r: Result<
        HashMap<u64, Vec<mix::Node>>,
        NymTopologyError,
    >)
        ensures
            match r {
                Ok(m) => {
                    &&& layers_usable(self.mix_nodes@)
                    &&& forall|l: u64|
                        m@.contains_key(l) <==> layer_nodes(self.mix_nodes@, l).len() > 0
                    &&& forall|l: u64|
                        #[trigger] m@.contains_key(l) ==> m@[l]@ == layer_nodes(
                            self.mix_nodes@,
                            l,
                        )
                },
                Err(e) => {
                    &&& !layers_usable(self.mix_nodes@)
                    &&& e == NymTopologyError::InvalidMixLayerError <==> !valid_mix_layers(
                        self.mix_nodes@,
                    )
                    &&& e matches NymTopologyError::MissingLayerError(ms) ==> valid_mix_layers(
                        self.mix_nodes@,
                    ) && ms@ == missing_layers_spec(self.mix_nodes@) && ms@.len() > 0
                    &&& !(e is NonExistentGatewayError)
                },
            },
    {
        let mixes = &self.mix_nodes;
        let n = mixes.len();
        let mut highest: u64 = 0;
        let mut idx: usize = 0;
        while idx < n
            invariant
                mixes@ == self.mix_nodes@,
                idx <= n,
                n == mixes@.len(),
                forall|i: int| 0 <= i < idx ==> mixes@[i].layer <= MAX_PATH_LENGTH,
                highest == highest_layer(mixes@.take(idx as int)),
                highest <= MAX_PATH_LENGTH,
            decreases n - idx,
        {
            proof {
                assert(mixes@.take(idx + 1int).drop_last() =~= mixes@.take(idx as int));
                assert(mixes@.take(idx + 1int).last() == mixes@[idx as int]);
            }
            if mixes[idx].layer > MAX_PATH_LENGTH {
                proof {
                    assert(0 <= idx as int && (idx as int) < mixes@.len()
                        && mixes@[idx as int].layer > MAX_PATH_LENGTH);
                    assert(!valid_mix_layers(mixes@));
                }
                return Err(NymTopologyError::InvalidMixLayerError);
            }
            if mixes[idx].layer > highest {
                highest = mixes[idx].layer;
            }
            idx = idx + 1;
        }
        proof {
            assert(mixes@.take(n as int) =~= mixes@);
        }

        let mut layered: HashMap<u64, Vec<mix::Node>> = HashMap::new();
        let mut l: u64 = 0;
        while l <= highest
            invariant
                mixes@ == self.mix_nodes@,
                l <= highest + 1,
                highest <= MAX_PATH_LENGTH,
                highest == highest_layer(mixes@),
                forall|k: u64|
                    layered@.contains_key(k) <==> (k < l && layer_nodes(mixes@, k).len() > 0),
                forall|k: u64|
                    #[trigger] layered@.contains_key(k) ==> layered@[k]@ == layer_nodes(
                        mixes@,
                        k,
                    ),
            decreases highest + 1 - l,
        {
            let nodes_here = mixes_in_layer(mixes, l);
            if nodes_here.len() > 0 {
                layered.insert(l, nodes_here);
            }
            l = l + 1;
        }
        proof {
            lemma_highest_is_max(mixes@);
            assert forall|k: u64| k > highest implies layer_nodes(mixes@, k).len() == 0 by {
                lemma_no_layer_above_highest(mixes@, k);
            }
        }

        let mut missing: Vec<u64> = Vec::new();
        let mut l: u64 = 1;
        while l <= highest
            invariant
                mixes@ == self.mix_nodes@,
                1 <= l <= highest + 1,
                highest <= MAX_PATH_LENGTH,
                highest == highest_layer(mixes@),
                missing@ == missing_layers_upto(mixes@, (l - 1) as nat),
                forall|k: u64|
                    layered@.contains_key(k) <==> layer_nodes(mixes@, k).len() > 0,
                forall|k: u64|
                    #[trigger] layered@.contains_key(k) ==> layered@[k]@ == layer_nodes(
                        mixes@,
                        k,
                    ),
            decreases highest + 1 - l,
        {
            if !layered.contains_key(&l) {
                missing.push(l);
            }
            l = l + 1;
        }

        if missing.len() > 0 {
            return Err(NymTopologyError::MissingLayerError(missing));
        }
        Ok(layered)
    }

    /// Whether this topology can carry any traffic at all: some mix node,
    /// some gateway, and a usable layering.
    pub fn can_construct_path_through(&self) -> (r: bool)
        ensures
            r == (self.mix_nodes@.len() > 0 && self.gateway_nodes@.len() > 0 && layers_usable(
                self.mix_nodes@,
            )),
    {
        if self.mix_nodes.is_empty() {
            return false;
        }
        if self.gateway_nodes.is_empty() {
            return false;
        }
        self.make_layered_topology().is_ok()
    }

    /// Whether a gateway whose identity key is the base58 form of
    /// `gateway_address` is part of this topology.
    pub fn gateway_exists(&self, gateway_address: &Vec<u8>) -> (r: bool)
        ensures
            r == exists|i: int|
                0 <= i < self.gateway_nodes@.len() && self.gateway_nodes@[i].identity_key@
                    == b58_string(gateway_address@),
    {
        let b58_address = encode_to_base58(gateway_address);
        let n = self.gateway_nodes.len();
        let mut idx: usize = 0;
        while idx < n
            invariant
                idx <= n,
                n == self.gateway_nodes@.len(),
                b58_address@ == b58_string(gateway_address@),
                forall|i: int|
                    0 <= i < idx ==> self.gateway_nodes@[i].identity_key@ != b58_string(
                        gateway_address@,
                    ),
            decreases n - idx,
        {
            if self.gateway_nodes[idx].identity_key == b58_address {
                return true;
            }
            idx = idx + 1;
        }
        false
    }

    /// A random route through the mix network: one node drawn from each
    /// layer, from layer 1 up to the highest occupied layer. Fails exactly
    /// when the layering is unusable.
    pub fn random_mix_route(&self) -> (r: Result<Vec<mix::Node>, NymTopologyError>)
        ensures
            match r {
                Ok(route) => {
                    &&& layers_usable(self.mix_nodes@)
                    &&& route@.len() == highest_layer(self.mix_nodes@)
                    &&& forall|i: int|
                        0 <= i < route@.len() ==> layer_nodes(
                            self.mix_nodes@,
                            (i + 1) as u64,
                        ).contains(#[trigger] route@[i])
                },
                Err(e) => {
                    &&& !layers_usable(self.mix_nodes@)
                    &&& e == NymTopologyError::InvalidMixLayerError <==> !valid_mix_layers(
                        self.mix_nodes@,
                    )
                    &&& !(e is NonExistentGatewayError)
                },
            },
    {
        match self.make_layered_topology() {
            Ok(_) => {},
            Err(e) => {
                return Err(e);
            },
        }
        let highest = highest_layer_of(&self.mix_nodes);
        proof {
            lemma_highest_bounded(self.mix_nodes@, MAX_PATH_LENGTH);
        }
        let mut route: Vec<mix::Node> = Vec::new();
        let mut l: u64 = 1;
        while l <= highest
            invariant
                1 <= l <= highest + 1,
                highest <= MAX_PATH_LENGTH,
                highest == highest_layer(self.mix_nodes@),
                layers_usable(self.mix_nodes@),
                route@.len() == l - 1,
                forall|i: int|
                    0 <= i < route@.len() ==> layer_nodes(
                        self.mix_nodes@,
                        (i + 1) as u64,
                    ).contains(#[trigger] route@[i]),
            decreases highest + 1 - l,
        {
            let mut candidates = mixes_in_layer(&self.mix_nodes, l);
            proof {
                if layer_nodes(self.mix_nodes@, l).len() == 0 {
                    lemma_missing_layers_complete(self.mix_nodes@, l as nat, highest as nat);
                }
            }
            let j = random_index(candidates.len());
            let chosen = candidates.remove(j);
            proof {
                assert(layer_nodes(self.mix_nodes@, l).contains(chosen));
            }
            route.push(chosen);
            l = l + 1;
        }
        Ok(route)
    }

    /// A random route through the mix network ending at the gateway whose
    /// identity key is the base58 form of `gateway_address`: one mix node per
    /// layer, then that gateway. An unknown gateway is reported before the
    /// layering is examined.
    pub fn random_route_to_gateway(&self, gateway_address: &Vec<u8>) -> (r: Result<
        Vec<RouteNode>,
        NymTopologyError,
    >)
        ensures
            match r {
                Ok(route) => {
                    &&& exists|i: int|
                        0 <= i < self.gateway_nodes@.len()
                            && self.gateway_nodes@[i].identity_key@ == b58_string(
                            gateway_address@,
                        )
                    &&& layers_usable(self.mix_nodes@)
                    &&& route@.len() == highest_layer(self.mix_nodes@) + 1
                    &&& forall|i: int|
                        0 <= i < route@.len() - 1 ==> ((#[trigger] route@[i]) matches
                        RouteNode::Mix(n) && layer_nodes(self.mix_nodes@, (i + 1) as u64).contains(
                            n,
                        ))
                    &&& route@.last() matches RouteNode::Gateway(g) && g.identity_key@
                        == b58_string(gateway_address@) && exists|i: int|
                        0 <= i < self.gateway_nodes@.len() && gateway::same_gateway(
                            g,
                            self.gateway_nodes@[i],
                        )
                },
                Err(e) => {
                    &&& e == NymTopologyError::NonExistentGatewayError <==> !exists|i: int|
                        0 <= i < self.gateway_nodes@.len()
                            && self.gateway_nodes@[i].identity_key@ == b58_string(
                            gateway_address@,
                        )
                    &&& !(e is NonExistentGatewayError) ==> !layers_usable(self.mix_nodes@)
                    &&& e == NymTopologyError::InvalidMixLayerError ==> !valid_mix_layers(
                        self.mix_nodes@,
                    )
                },
            },
    {
        let b58_address = encode_to_base58(gateway_address);
        let n = self.gateway_nodes.len();
        let mut found: usize = n;
        let mut idx: usize = 0;
        while idx < n
            invariant
                idx <= n,
                found <= n,
                n == self.gateway_nodes@.len(),
                b58_address@ == b58_string(gateway_address@),
                found == n ==> forall|i: int|
                    0 <= i < idx ==> self.gateway_nodes@[i].identity_key@ != b58_string(
                        gateway_address@,
                    ),
                found < n ==> self.gateway_nodes@[found as int].identity_key@ == b58_string(
                    gateway_address@,
                ),
            decreases n - idx,
        {
            if found == n && self.gateway_nodes[idx].identity_key == b58_address {
                found = idx;
            }
            idx = idx + 1;
        }
        if found == n {
            return Err(NymTopologyError::NonExistentGatewayError);
        }
        proof {
            assert(0 <= found as int && (found as int) < self.gateway_nodes@.len()
                && self.gateway_nodes@[found as int].identity_key@ == b58_string(
                gateway_address@,
            ));
        }
        let mix_route = match self.random_mix_route() {
            Ok(ms) => ms,
            Err(e) => {
                return Err(e);
            },
        };
        let ghost mix_seq = mix_route@;
        let mut route: Vec<RouteNode> = Vec::new();
        let mut rest = mix_route;
        let ghost mut done: int = 0;
        while rest.len() > 0
            invariant
                0 <= done <= mix_seq.len(),
                rest@ == mix_seq.skip(done),
                route@.len() == done,
                forall|i: int|
                    0 <= i < done ==> (#[trigger] route@[i]) == RouteNode::Mix(mix_seq[i]),
            decreases rest@.len(),
        {
            let node = rest.remove(0);
            proof {
                assert(mix_seq.skip(done).remove(0) =~= mix_seq.skip(done + 1));
                assert(mix_seq.skip(done)[0] == mix_seq[done]);
            }
            route.push(RouteNode::Mix(node));
            proof {
                done = done + 1;
            }
        }
        proof {
            assert(done == mix_seq.len());
        }
        let gw = self.gateway_nodes[found].duplicate();
        route.push(RouteNode::Gateway(gw));
        Ok(route)
    }

    /// Every path the topology admits: one mix node from each layer in layer
    /// order, ending at one of the gateways. Fails exactly when the layering
    /// is unusable.
    pub fn all_paths(&self) -> (r: Result<Vec<Vec<RouteNode>>, NymTopologyError>)
        ensures
            match r {
                Ok(paths) => {
                    &&& layers_usable(self.mix_nodes@)
                    &&& paths@.len() == layer_selections(
                        self.mix_nodes@,
                        highest_layer(self.mix_nodes@) as nat,
                    ) * self.gateway_nodes@.len()
                    &&& forall|i: int|
                        0 <= i < paths@.len() ==> (#[trigger] paths@[i])@.len() == highest_layer(
                            self.mix_nodes@,
                        ) + 1
                    &&& forall|i: int, j: int|
                        0 <= i < paths@.len() && 0 <= j < highest_layer(self.mix_nodes@) ==> ((
                        #[trigger] paths@[i]@[j]) matches RouteNode::Mix(n) && layer_nodes(
                            self.mix_nodes@,
                            (j + 1) as u64,
                        ).contains(n))
                    &&& forall|i: int|
                        0 <= i < paths@.len() ==> ((#[trigger] paths@[i])@.last() matches
                        RouteNode::Gateway(g) && exists|k: int|
                            0 <= k < self.gateway_nodes@.len() && gateway::same_gateway(
                                g,
                                self.gateway_nodes@[k],
                            ))
                },
                Err(e) => {
                    &&& !layers_usable(self.mix_nodes@)
                    &&& e == NymTopologyError::InvalidMixLayerError <==> !valid_mix_layers(
                        self.mix_nodes@,
                    )
                    &&& !(e is NonExistentGatewayError)
                },
            },
    {
        match self.make_layered_topology() {
            Ok(_) => {},
            Err(e) => {
                return Err(e);
            },
        }
        let highest = highest_layer_of(&self.mix_nodes);
        proof {
            lemma_highest_bounded(self.mix_nodes@, MAX_PATH_LENGTH);
        }
        let mut factors: Vec<Vec<RouteNode>> = Vec::new();
        let mut l: u64 = 1;
        while l <= highest
            invariant
                1 <= l <= highest + 1,
                highest <= MAX_PATH_LENGTH,
                highest == highest_layer(self.mix_nodes@),
                factors@.len() == l - 1,
                forall|j: int|
                    0 <= j < factors@.len() ==> (#[trigger] factors@[j])@.len() == layer_nodes(
                        self.mix_nodes@,
                        (j + 1) as u64,
                    ).len(),
                forall|j: int, k: int|
                    0 <= j < factors@.len() && 0 <= k < factors@[j]@.len() ==> (
                    #[trigger] factors@[j]@[k]) == RouteNode::Mix(
                        layer_nodes(self.mix_nodes@, (j + 1) as u64)[k],
                    ),
            decreases highest + 1 - l,
        {
            let ms = mixes_in_layer(&self.mix_nodes, l);
            let ghost ms_seq = ms@;
            let mut factor: Vec<RouteNode> = Vec::new();
            let mut rest = ms;
            let ghost mut taken: int = 0;
            while rest.len() > 0
                invariant
                    0 <= taken <= ms_seq.len(),
                    rest@ == ms_seq.skip(taken),
                    factor@.len() == taken,
                    forall|k: int|
                        0 <= k < taken ==> (#[trigger] factor@[k]) == RouteNode::Mix(ms_seq[k]),
                decreases rest@.len(),
            {
                let node = rest.remove(0);
                proof {
                    assert(ms_seq.skip(taken).remove(0) =~= ms_seq.skip(taken + 1));
                    assert(ms_seq.skip(taken)[0] == ms_seq[taken]);
                }
                factor.push(RouteNode::Mix(node));
                proof {
                    taken = taken + 1;
                }
            }
            factors.push(factor);
            l = l + 1;
        }

        let ghost mix_factors = factors@;
        let mut gateway_factor: Vec<RouteNode> = Vec::new();
        let gn = self.gateway_nodes.len();
        let mut gi: usize = 0;
        while gi < gn
            invariant
                gi <= gn,
                gn == self.gateway_nodes@.len(),
                gateway_factor@.len() == gi,
                forall|k: int|
                    0 <= k < gi ==> ((#[trigger] gateway_factor@[k]) matches RouteNode::Gateway(g)
                        && gateway::same_gateway(g, self.gateway_nodes@[k])),
            decreases gn - gi,
        {
            gateway_factor.push(RouteNode::Gateway(self.gateway_nodes[gi].duplicate()));
            gi = gi + 1;
        }
        let ghost gateway_seq = gateway_factor@;
        factors.push(gateway_factor);

        proof {
            assert(factors@.drop_last() =~= mix_factors);
            lemma_factor_product(mix_factors, self.mix_nodes@);
        }
        let paths = cartesian_product(factors);
        proof {
            let mixes = self.mix_nodes@;
            let h = highest_layer(mixes) as int;
            assert forall|i: int, j: int|
                0 <= i < paths@.len() && 0 <= j < h implies ((#[trigger] paths@[i]@[j]) matches
            RouteNode::Mix(n) && layer_nodes(mixes, (j + 1) as u64).contains(n)) by {
                assert(mix_factors[j]@.contains(paths@[i]@[j]));
                let k = choose|k: int|
                    0 <= k < mix_factors[j]@.len() && mix_factors[j]@[k] == paths@[i]@[j];
                assert(mix_factors[j]@[k] == RouteNode::Mix(layer_nodes(mixes, (j + 1) as u64)[k]));
                assert(layer_nodes(mixes, (j + 1) as u64).contains(
                    layer_nodes(mixes, (j + 1) as u64)[k],
                ));
            }
            assert forall|i: int|
                0 <= i < paths@.len() implies ((#[trigger] paths@[i])@.last() matches
            RouteNode::Gateway(g) && exists|k: int|
                0 <= k < self.gateway_nodes@.len() && gateway::same_gateway(
                    g,
                    self.gateway_nodes@[k],
                )) by {
                assert(paths@[i]@.last() == paths@[i]@[h]);
                assert(gateway_seq.contains(paths@[i]@[h]));
                let k = choose|k: int|
                    0 <= k < gateway_seq.len() && gateway_seq[k] == paths@[i]@[h];
                assert((gateway_seq[k] matches RouteNode::Gateway(g) && gateway::same_gateway(
                    g,
                    self.gateway_nodes@[k],
                )));
            }
        }
        Ok(paths)
    }

    /// The same topology with every node list narrowed to one expected
    /// version per role.
    pub fn filter_node_versions(
        self,
        expected_mix_version: &String,
        expected_provider_version: &String,
        expected_gateway_version: &String,
        expected_coco_version: &String,
    ) -> (r: NymTopology)
        ensures
            r.mix_nodes@ == mix::nodes_with_version(self.mix_nodes@, expected_mix_version@),
            r.mix_provider_nodes@ == provider::nodes_with_version(
                self.mix_provider_nodes@,
                expected_provider_version@,
            ),
            r.gateway_nodes@ == gateway::nodes_with_version(
                self.gateway_nodes@,
                expected_gateway_version@,
            ),
            r.coco_nodes@ == coco::nodes_with_version(self.coco_nodes@, expected_coco_version@),
    {
        let NymTopology { mix_nodes, mix_provider_nodes, coco_nodes, gateway_nodes } = self;
        NymTopology {
            mix_nodes: mix::filter_by_version(mix_nodes, expected_mix_version),
            mix_provider_nodes: provider::filter_by_version(
                mix_provider_nodes,
                expected_provider_version,
            ),
            coco_nodes: coco::filter_by_version(coco_nodes, expected_coco_version),
            gateway_nodes: gateway::filter_by_version(gateway_nodes, expected_gateway_version),
        }
    }

    /// The same topology narrowed to one expected version for every role.
    pub fn filter_system_version(self, expected_version: &String) -> (r: NymTopology)
        ensures
            r.mix_nodes@ == mix::nodes_with_version(self.mix_nodes@, expected_version@),
            r.mix_provider_nodes@ == provider::nodes_with_version(
                self.mix_provider_nodes@,
                expected_version@,
            ),
            r.gateway_nodes@ == gateway::nodes_with_version(self.gateway_nodes@, expected_version@),
            r.coco_nodes@ == coco::nodes_with_version(self.coco_nodes@, expected_version@),
    {
        self.filter_node_versions(
            expected_version,
            expected_version,
            expected_version,
            expected_version,
        )
    }
}

/// One hop of a finished route: a mix relay or the terminal gateway.
#[derive(Clone, Debug)]
pub enum RouteNode {
    Mix(mix::Node),
    Gateway(gateway::Node),
}

/// How many selections a run of factor lists admits: the product of their
/// lengths, with the empty product equal to one.
pub open spec fn product_of_lens(factors: Seq<Vec<RouteNode>>) -> nat
    decreases factors.len(),
{
    if factors.len() == 0 {
        1
    } else {
        product_of_lens(factors.drop_last()) * factors.last()@.len()
    }
}

/// How many ways there are to pick one mix node from each layer up to
/// `upto`: the product of the layers' sizes.
pub open spec fn layer_selections(mixes: Seq<mix::Node>, upto: nat) -> nat
    decreases upto,
{
    if upto == 0 {
        1
    } else {
        layer_selections(mixes, (upto - 1) as nat) * layer_nodes(mixes, upto as u64).len()
    }
}

/// Relies on itertools' multi_cartesian_product: one output for each way of
/// picking one element from every factor list, each output holding one pick
/// per factor in factor order; with no factors, a single empty pick.
#[verifier::external_body]
fn cartesian_product(factors: Vec<Vec<RouteNode>>) -> (r: Vec<Vec<RouteNode>>)
    ensures
        r@.len() == product_of_lens(factors@),
        forall|i: int| 0 <= i < r@.len() ==> (#[trigger] r@[i])@.len() == factors@.len(),
        forall|i: int, j: int|
            0 <= i < r@.len() && 0 <= j < factors@.len() ==> factors@[j]@.contains(
                #[trigger] r@[i]@[j],
            ),
{
    factors.into_iter().map(|f| f.into_iter()).multi_cartesian_product().collect()
}

/// Factor lists that each mirror one mix layer have as many selections as
/// the layers themselves.
proof fn lemma_factor_product(factors: Seq<Vec<RouteNode>>, mixes: Seq<mix::Node>)
    requires
        forall|j: int|
            0 <= j < factors.len() ==> (#[trigger] factors[j])@.len() == layer_nodes(
                mixes,
                (j + 1) as u64,
            ).len(),
    ensures
        product_of_lens(factors) == layer_selections(mixes, factors.len() as nat),
    decreases factors.len(),
{
    if factors.len() > 0 {
        assert forall|j: int|
            0 <= j < factors.len() - 1 implies (#[trigger] factors.drop_last()[j])@.len()
            == layer_nodes(mixes, (j + 1) as u64).len() by {
            assert(factors.drop_last()[j] == factors[j]);
        }
        lemma_factor_product(factors.drop_last(), mixes);
    }
}

/// A layer between 1 and the highest occupied one is empty only if the
/// missing-layer list records it.
proof fn lemma_missing_layers_complete(mixes: Seq<mix::Node>, l: nat, upto: nat)
    requires
        1 <= l <= upto,
        layer_nodes(mixes, l as u64).len() == 0,
    ensures
        missing_layers_upto(mixes, upto).len() > 0,
    decreases upto,
{
    if l < upto {
        lemma_missing_layers_complete(mixes, l, (upto - 1) as nat);
    }
}

/// Exactly the mix nodes of one layer, in directory order.
fn mixes_in_layer(mixes: &Vec<mix::Node>, layer: u64) -> (r: Vec<mix::Node>)
    ensures
        r@ == layer_nodes(mixes@, layer),
{
    let mut r: Vec<mix::Node> = Vec::new();
    let n = mixes.len();
    let mut idx: usize = 0;
    while idx < n
        invariant
            idx <= n,
            n == mixes@.len(),
            r@ == layer_nodes(mixes@.take(idx as int), layer),
        decreases n - idx,
    {
        if mixes[idx].layer == layer {
            r.push(mixes[idx].duplicate());
        }
        proof {
            let s_next = mixes@.take(idx + 1int);
            assert(s_next.drop_last() =~= mixes@.take(idx as int));
            assert(s_next.last() == mixes@[idx as int]);
            assert(layer_nodes(s_next, layer) == if s_next.last().layer == layer {
                layer_nodes(s_next.drop_last(), layer).push(s_next.last())
            } else {
                layer_nodes(s_next.drop_last(), layer)
            });
        }
        idx = idx + 1;
    }
    proof {
        assert(mixes@.take(n as int) =~= mixes@);
    }
    r
}

/// The highest layer any mix node sits in.
fn highest_layer_of(mixes: &Vec<mix::Node>) -> (r: u64)
    ensures
        r == highest_layer(mixes@),
{
    let n = mixes.len();
    let mut highest: u64 = 0;
    let mut idx: usize = 0;
    while idx < n
        invariant
            idx <= n,
            n == mixes@.len(),
            highest == highest_layer(mixes@.take(idx as int)),
        decreases n - idx,
    {
        proof {
            assert(mixes@.take(idx + 1int).drop_last() =~= mixes@.take(idx as int));
            assert(mixes@.take(idx + 1int).last() == mixes@[idx as int]);
        }
        if mixes[idx].layer > highest {
            highest = mixes[idx].layer;
        }
        idx = idx + 1;
    }
    proof {
        assert(mixes@.take(n as int) =~= mixes@);
    }
    highest
}

} // verus!

