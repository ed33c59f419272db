//! Mix nodes: the relays the layered topology is built from.

use vstd::prelude::*;

use crate::endpoint::Endpoint;
use crate::topology::b58_key_bytes;
use crate::topology::decode_key_onto;

verus! {

/// One mix node as the directory describes it.
#[derive(Clone, Debug)]
pub struct Node {
    pub location: String,
    pub host: Endpoint,
    pub pub_key: String,
    pub layer: u64,
    pub last_seen: u64,
    pub version: String,
}

impl Node {
    /// An owned copy with the same contents.
    pub fn duplicate(&self) -> (n: Node)
        ensures
            n == *self,
    {
        Node {
            location: self.location.clone(),
            host: self.host,
            pub_key: self.pub_key.clone(),
            layer: self.layer,
            last_seen: self.last_seen,
            version: self.version.clone(),
        }
    }

    /// The node's public key, base58-decoded into its 32-byte wire form;
    /// `None` when the recorded key is not valid base58 of at most 32 bytes.
    pub fn get_pub_key_bytes(&self) -> (r: Option<Vec<u8>>)
        ensures
            match r {
                Some(v) => b58_key_bytes(self.pub_key@) == Some(v@) && v@.len() == 32,
                None => b58_key_bytes(self.pub_key@) is None,
            },
    {
        decode_key_onto(&self.pub_key)
    }
}

/// Exactly the nodes whose recorded version equals `expected`, in order.
pub open spec fn nodes_with_version(nodes: Seq<Node>, expected: Seq<char>) -> Seq<Node>
    decreases nodes.len(),
{
    if nodes.len() == 0 {
        Seq::empty()
    } else {
        let rest = nodes_with_version(nodes.drop_last(), expected);
        if nodes.last().version@ == expected {
            rest.push(nodes.last())
        } else {
            rest
        }
    }
}

/// Keeps exactly the nodes whose recorded version equals `expected`, in order.
pub fn filter_by_version(nodes: Vec<Node>, expected: &String) -> (r: Vec<Node>)
    ensures
        r@ == nodes_with_version(nodes@, expected@),
{
    let mut r: Vec<Node> = Vec::new();
    let n = nodes.len();
    let mut idx: usize = 0;
    while idx < n
        invariant
            idx <= n,
            n == nodes@.len(),
            r@ == nodes_with_version(nodes@.take(idx as int), expected@),
        decreases n - idx,
    {
        if nodes[idx].version == *expected {
            r.push(nodes[idx].duplicate());
        }
        proof {
            let s_next = nodes@.take(idx + 1int);
            assert(s_next.drop_last() =~= nodes@.take(idx as int));
            assert(s_next.last() == nodes@[idx as int]);
            assert(nodes_with_version(s_next, expected@) == if s_next.last().version@
                == expected@ {
                nodes_with_version(s_next.drop_last(), expected@).push(s_next.last())
            } else {
                nodes_with_version(s_next.drop_last(), expected@)
            });
        }
        idx = idx + 1;
    }
    proof {
        assert(nodes@.take(n as int) =~= nodes@);
    }
    r
}

} // verus!
