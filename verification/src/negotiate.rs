//! Algorithm negotiation: for each required category, the first algorithm in
//! the offering side's order that also appears anywhere in the peer's offer
//! wins; a category with no common value is a fatal negotiation failure.

use vstd::prelude::*;
use crate::err::SSHError;
use crate::msg::{MsgKexInit, MsgKexInitV};

verus! {

/// Whether `x` appears anywhere in `list`.
pub open spec fn spec_contains_name(list: Seq<Seq<char>>, x: Seq<char>) -> bool {
    exists|i: int| 0 <= i < list.len() && list[i] == x
}

/// The first name in `offer` order that also appears anywhere in `peer`, if
/// any: the tie-break is decided entirely by `offer`'s order.
pub open spec fn spec_first_common(offer: Seq<Seq<char>>, peer: Seq<Seq<char>>) -> Option<
    Seq<char>,
>
    decreases offer.len(),
{
    if offer.len() == 0 {
        None
    } else if spec_contains_name(peer, offer[0]) {
        Some(offer[0])
    } else {
        spec_first_common(offer.drop_first(), peer)
    }
}

/// No common name at all means no selection: the selection is `None` exactly
/// when no entry of `offer` appears in `peer`.
pub proof fn lemma_first_common_none(offer: Seq<Seq<char>>, peer: Seq<Seq<char>>)
    ensures
        spec_first_common(offer, peer) is None <==> forall|i: int|
            0 <= i < offer.len() ==> !spec_contains_name(peer, #[trigger] offer[i]),
    decreases offer.len(),
{
    if offer.len() == 0 {
    } else {
        lemma_first_common_none(offer.drop_first(), peer);
        assert(forall|i: int| 0 <= i < offer.drop_first().len() ==> offer.drop_first()[i] == offer[i + 1]);
        if !spec_contains_name(peer, offer[0]) {
            assert forall|i: int|
                0 <= i < offer.len() && (spec_first_common(offer, peer) is None) implies !spec_contains_name(
                peer,
                #[trigger] offer[i],
            ) by {
                if i > 0 {
                    assert(offer.drop_first()[i - 1] == offer[i]);
                }
            }
        }
    }
}

/// The selection is order-respecting and deterministic: if `offer[i]` is
/// common and no earlier entry is, the selection is exactly `offer[i]`.
pub proof fn lemma_first_common_order(offer: Seq<Seq<char>>, peer: Seq<Seq<char>>, i: int)
    requires
        0 <= i < offer.len(),
        spec_contains_name(peer, offer[i]),
        forall|j: int| 0 <= j < i ==> !spec_contains_name(peer, #[trigger] offer[j]),
    ensures
        spec_first_common(offer, peer) == Some(offer[i]),
    decreases offer.len(),
{
    if i == 0 {
    } else {
        assert(!spec_contains_name(peer, offer[0]));
        assert(forall|j: int| 0 <= j < offer.drop_first().len() ==> offer.drop_first()[j] == offer[j + 1]);
        lemma_first_common_order(offer.drop_first(), peer, i - 1);
    }
}

/// Whether `x` appears in `list`.
pub fn contains_name(list: &Vec<String>, x: &String) -> (r: bool)
    ensures
        r == spec_contains_name(list.deep_view(), x@),
{
    let mut i: usize = 0;
    while i < list.len()
        invariant
            0 <= i <= list@.len(),
            forall|j: int| 0 <= j < i ==> list.deep_view()[j] != x@,
        decreases list@.len() - i,
    {
        let eq = list[i] == *x;
        proof {
            assert(list.deep_view()[i as int] == list@[i as int]@);
        }
        if eq {
            return true;
        }
        i += 1;
    }
    false
}

/// The first algorithm in `offer` order that also appears anywhere in
/// `peer`, if any.
pub fn find_first_common(offer: &Vec<String>, peer: &Vec<String>) -> (r: Option<String>)
    ensures
        match r {
            Some(s) => spec_first_common(offer.deep_view(), peer.deep_view()) == Some(s@),
            None => spec_first_common(offer.deep_view(), peer.deep_view()) is None,
        },
{
    let mut i: usize = 0;
    while i < offer.len()
        invariant
            0 <= i <= offer@.len(),
            forall|j: int|
                0 <= j < i ==> !spec_contains_name(peer.deep_view(), #[trigger] offer.deep_view()[j]),
        decreases offer@.len() - i,
    {
        if contains_name(peer, &offer[i]) {
            proof {
                assert(offer.deep_view()[i as int] == offer@[i as int]@);
                lemma_first_common_order(offer.deep_view(), peer.deep_view(), i as int);
            }
            return Some(offer[i].clone());
        }
        i += 1;
    }
    proof {
        lemma_first_common_none(offer.deep_view(), peer.deep_view());
    }
    None
}

/// The negotiated algorithm of every required category.
#[derive(Clone, Debug, PartialEq)]
pub struct AlgorithmSuite {
    pub kex: String,
    pub host_key: String,
    pub encryption_client_to_server: String,
    pub encryption_server_to_client: String,
    pub mac_client_to_server: String,
    pub mac_server_to_client: String,
    pub compression_client_to_server: String,
    pub compression_server_to_client: String,
}

/// Mathematical view of [`AlgorithmSuite`].
pub struct AlgorithmSuiteV {
    pub kex: Seq<char>,
    pub host_key: Seq<char>,
    pub encryption_client_to_server: Seq<char>,
    pub encryption_server_to_client: Seq<char>,
    pub mac_client_to_server: Seq<char>,
    pub mac_server_to_client: Seq<char>,
    pub compression_client_to_server: Seq<char>,
    pub compression_server_to_client: Seq<char>,
}

impl View for AlgorithmSuite {
    type V = AlgorithmSuiteV;

    open spec fn view(&self) -> AlgorithmSuiteV {
        AlgorithmSuiteV {
            kex: self.kex@,
            host_key: self.host_key@,
            encryption_client_to_server: self.encryption_client_to_server@,
            encryption_server_to_client: self.encryption_server_to_client@,
            mac_client_to_server: self.mac_client_to_server@,
            mac_server_to_client: self.mac_server_to_client@,
            compression_client_to_server: self.compression_client_to_server@,
            compression_server_to_client: self.compression_server_to_client@,
        }
    }
}

/// The outcome negotiation must produce for a pair of offers: `Some` with
/// every category's first common name, or `None` if any required category has
/// no common value.
pub open spec fn spec_negotiate(offer: MsgKexInitV, peer: MsgKexInitV) -> Option<AlgorithmSuiteV> {
    let kex = spec_first_common(offer.kex_algorithms, peer.kex_algorithms);
    let hk = spec_first_common(offer.server_host_key_algorithms, peer.server_host_key_algorithms);
    let ec = spec_first_common(
        offer.encryption_algorithms_client_to_server,
        peer.encryption_algorithms_client_to_server,
    );
    let es = spec_first_common(
        offer.encryption_algorithms_server_to_client,
        peer.encryption_algorithms_server_to_client,
    );
    let mc = spec_first_common(
        offer.mac_algorithms_client_to_server,
        peer.mac_algorithms_client_to_server,
    );
    let ms = spec_first_common(
        offer.mac_algorithms_server_to_client,
        peer.mac_algorithms_server_to_client,
    );
    let cc = spec_first_common(
        offer.compression_algorithms_client_to_server,
        peer.compression_algorithms_client_to_server,
    );
    let cs = spec_first_common(
        offer.compression_algorithms_server_to_client,
        peer.compression_algorithms_server_to_client,
    );
    if kex is Some && hk is Some && ec is Some && es is Some && mc is Some && ms is Some && cc
        is Some && cs is Some {
        Some(
            AlgorithmSuiteV {
                kex: kex.unwrap(),
                host_key: hk.unwrap(),
                encryption_client_to_server: ec.unwrap(),
                encryption_server_to_client: es.unwrap(),
                mac_client_to_server: mc.unwrap(),
                mac_server_to_client: ms.unwrap(),
                compression_client_to_server: cc.unwrap(),
                compression_server_to_client: cs.unwrap(),
            },
        )
    } else {
        None
    }
}

/// Negotiate every required category between `offer` (whose order decides
/// ties) and `peer`.  Fails with `NegotiationFailure` exactly when some
/// required category has no common value.
pub fn negotiate(offer: &MsgKexInit, peer: &MsgKexInit) -> (r: Result<AlgorithmSuite, SSHError>)
    ensures
        match r {
            Ok(suite) => spec_negotiate(offer@, peer@) == Some(suite@),
            Err(e) => e == SSHError::NegotiationFailure && spec_negotiate(offer@, peer@) is None,
        },
{
    let kex = find_first_common(&offer.kex_algorithms, &peer.kex_algorithms);
    let hk = find_first_common(&offer.server_host_key_algorithms, &peer.server_host_key_algorithms);
    let ec = find_first_common(
        &offer.encryption_algorithms_client_to_server,
        &peer.encryption_algorithms_client_to_server,
    );
    let es = find_first_common(
        &offer.encryption_algorithms_server_to_client,
        &peer.encryption_algorithms_server_to_client,
    );
    let mc = find_first_common(
        &offer.mac_algorithms_client_to_server,
        &peer.mac_algorithms_client_to_server,
    );
    let ms = find_first_common(
        &offer.mac_algorithms_server_to_client,
        &peer.mac_algorithms_server_to_client,
    );
    let cc = find_first_common(
        &offer.compression_algorithms_client_to_server,
        &peer.compression_algorithms_client_to_server,
    );
    let cs = find_first_common(
        &offer.compression_algorithms_server_to_client,
        &peer.compression_algorithms_server_to_client,
    );
    match (kex, hk, ec, es, mc, ms, cc, cs) {
        (
            Some(kex),
            Some(hk),
            Some(ec),
            Some(es),
            Some(mc),
            Some(ms),
            Some(cc),
            Some(cs),
        ) => Ok(
            AlgorithmSuite {
                kex,
                host_key: hk,
                encryption_client_to_server: ec,
                encryption_server_to_client: es,
                mac_client_to_server: mc,
                mac_server_to_client: ms,
                compression_client_to_server: cc,
                compression_server_to_client: cs,
            },
        ),
        _ => Err(SSHError::NegotiationFailure),
    }
}

} // verus!
