//! Peer certificates as the only anchors of trust.
//!
//! A node trusts exactly the certificates of its peers: each is its own root. They are taken
//! up in the order of their nodes, and the first that makes no anchor is refused by name.

use crate::consensus::mesh::{PeerCert, PeerCertView};
use crate::decimal::{decimal, push_decimal};
use crate::ids::NodeId;
use crate::ranked::views;
use crate::wire::clone_bytes;
use vstd::prelude::*;

verus! {

/// The store of trust anchors that connections are verified against.
#[verifier::external_type_specification]
#[verifier::external_body]
pub struct ExRootCertStore(rustls::RootCertStore);

/// Subject, public key and name constraints of the trust anchor that a certificate in DER
/// makes, or the text of why it makes none.
pub uninterp spec fn anchor_of(der: Seq<u8>) -> Result<
    (Seq<u8>, Seq<u8>, Option<Seq<u8>>),
    Seq<char>,
>;

/// The anchors in a store, in order: of each the subject, the public key and the name
/// constraints.
pub uninterp spec fn anchors(roots: rustls::RootCertStore) -> Seq<
    (Seq<u8>, Seq<u8>, Option<Seq<u8>>),
>;

/// The text of why a private key in DER is of no known form, if it is of none.
pub uninterp spec fn key_fault_of(der: Seq<u8>) -> Option<Seq<char>>;

/// Makes an empty store, through `rustls::RootCertStore::empty`, which holds no anchor.
#[verifier::external_body]
fn no_roots() -> (roots: rustls::RootCertStore)
    ensures
        anchors(roots).len() == 0,
{
    rustls::RootCertStore::empty()
}

/// Adds the anchor of a certificate, through `rustls::RootCertStore::add`, which parses the
/// bytes and puts the anchor that they make behind those in the store. Where they make none
/// it says why and leaves the store as it was. Both depend on the bytes alone.
#[verifier::external_body]
fn add_anchor(roots: &mut rustls::RootCertStore, der: Vec<u8>) -> (result: Result<(), String>)
    ensures
        match result {
            Ok(()) => anchor_of(der@) matches Ok(anchor) && anchors(*final(roots)) == anchors(
                *old(roots),
            ).push(anchor),
            Err(fault) => anchor_of(der@) == Err::<(Seq<u8>, Seq<u8>, Option<Seq<u8>>), _>(fault@)
                && anchors(*final(roots)) == anchors(*old(roots)),
        },
{
    match roots.add(rustls::pki_types::CertificateDer::from(der)) {
        Ok(()) => Ok(()),
        Err(error) => Err(error.to_string()),
    }
}

/// Says why a private key is of no known form, through `TryFrom` of
/// `rustls::pki_types::PrivateKeyDer`, which tells the form from the bytes alone.
#[verifier::external_body]
fn find_key_fault(der: Vec<u8>) -> (fault: Option<String>)
    ensures
        match fault {
            Some(text) => key_fault_of(der@) == Some(text@),
            None => key_fault_of(der@) is None,
        },
{
    match rustls::pki_types::PrivateKeyDer::try_from(der) {
        Ok(_) => None,
        Err(error) => Some(error.to_string()),
    }
}

/// `certs`, which are in the order of their nodes, with `cert` behind those of its node.
pub open spec fn slotted(certs: Seq<PeerCertView>, cert: PeerCertView) -> Seq<PeerCertView>
    decreases certs.len(),
{
    if certs.len() > 0 && cert.node.0 < certs.last().node.0 {
        slotted(certs.drop_last(), cert).push(certs.last())
    } else {
        certs.push(cert)
    }
}

/// `certs` in the order of their nodes.
pub open spec fn by_node(certs: Seq<PeerCertView>) -> Seq<PeerCertView>
    decreases certs.len(),
{
    if certs.len() == 0 {
        certs
    } else {
        slotted(by_node(certs.drop_last()), certs.last())
    }
}

/// What is said of a certificate of `node` that makes no anchor.
pub open spec fn bad_cert(node: NodeId, fault: Seq<char>) -> Seq<char> {
    "peer "@ + decimal(node.0 as nat) + " cert invalid: "@ + fault
}

/// The anchors that `certs` make, one after the other, or what is said of the first that
/// makes none.
pub open spec fn taken_up(certs: Seq<PeerCertView>) -> Result<
    Seq<(Seq<u8>, Seq<u8>, Option<Seq<u8>>)>,
    Seq<char>,
>
    decreases certs.len(),
{
    if certs.len() == 0 {
        Ok(Seq::empty())
    } else {
        match taken_up(certs.drop_last()) {
            Err(text) => Err(text),
            Ok(before) => match anchor_of(certs.last().der) {
                Ok(anchor) => Ok(before.push(anchor)),
                Err(fault) => Err(bad_cert(certs.last().node, fault)),
            },
        }
    }
}

/// What pinning `certs` gives: their anchors in the order of the nodes, or what is said of
/// the first certificate in that order that makes none.
pub open spec fn pinned_to(certs: Seq<PeerCertView>) -> Result<
    Seq<(Seq<u8>, Seq<u8>, Option<Seq<u8>>)>,
    Seq<char>,
> {
    taken_up(by_node(certs))
}

/// Words what is wrong with the certificate of `node`.
pub fn word_bad_cert(node: NodeId, fault: &str) -> (text: String)
    ensures
        text@ == bad_cert(node, fault@),
{
    let mut text: String = "peer ".to_owned();
    push_decimal(&mut text, node.as_u64() as u128);
    text.append(" cert invalid: ");
    text.append(fault);
    text
}

fn slot(certs: &mut Vec<PeerCert>, cert: PeerCert)
    ensures
        views(final(certs)@) == slotted(views(old(certs)@), cert@),
{
    let ghost before = certs@;
    let ghost all = views(before);
    let mut left: usize = certs.len();
    proof {
        assert(all.take(left as int) =~= all);
        assert(slotted(all, cert@) =~= slotted(all.take(left as int), cert@) + all.skip(
            left as int,
        ));
    }
    while left > 0 && cert.node.as_u64() < certs[left - 1].node.as_u64()
        invariant
            left <= certs.len(),
            certs@ == before,
            all == views(before),
            slotted(all, cert@) == slotted(all.take(left as int), cert@) + all.skip(left as int),
        decreases left,
    {
        proof {
            let now = all.take(left as int);
            assert(now.last() == before[left - 1]@);
            assert(now.drop_last() =~= all.take(left - 1));
            assert(slotted(now, cert@) + all.skip(left as int) =~= slotted(now.drop_last(), cert@)
                + all.skip(left - 1));
        }
        left = left - 1;
    }
    let ghost now = all.take(left as int);
    certs.insert(left, cert);
    proof {
        if left > 0 {
            assert(now.last() == before[left - 1]@);
        }
        assert(slotted(now, cert@) =~= now.push(cert@));
        assert(views(certs@) =~= now.push(cert@) + all.skip(left as int));
    }
}

fn order_by_node(certs: &Vec<PeerCert>) -> (ordered: Vec<PeerCert>)
    ensures
        views(ordered@) == by_node(views(certs@)),
{
    let ghost all = views(certs@);
    let mut ordered: Vec<PeerCert> = Vec::new();
    let mut at: usize = 0;
    proof {
        assert(all.take(0) =~= Seq::empty());
        assert(views(ordered@) =~= by_node(all.take(0)));
    }
    while at < certs.len()
        invariant
            at <= certs.len(),
            all == views(certs@),
            views(ordered@) == by_node(all.take(at as int)),
        decreases certs.len() - at,
    {
        proof {
            assert(all.take(at + 1).drop_last() =~= all.take(at as int));
            assert(all.take(at + 1).last() == certs@[at as int]@);
        }
        slot(&mut ordered, certs[at].clone());
        at = at + 1;
    }
    proof {
        assert(all.take(at as int) =~= all);
    }
    ordered
}

/// Pins the certificates of the peers: connections are then verified against exactly these.
pub fn pin(certs: &Vec<PeerCert>) -> (result: Result<rustls::RootCertStore, String>)
    ensures
        match result {
            Ok(roots) => pinned_to(views(certs@)) == Ok::<_, Seq<char>>(anchors(roots)),
            Err(text) => pinned_to(views(certs@)) == Err::<
                Seq<(Seq<u8>, Seq<u8>, Option<Seq<u8>>)>,
                _,
            >(text@),
        },
{
    let ordered: Vec<PeerCert> = order_by_node(certs);
    let ghost all = views(ordered@);
    let mut roots: rustls::RootCertStore = no_roots();
    let mut at: usize = 0;
    proof {
        assert(all.take(0) =~= Seq::empty());
        assert(anchors(roots) =~= Seq::empty());
    }
    while at < ordered.len()
        invariant
            at <= ordered.len(),
            all == views(ordered@),
            all == by_node(views(certs@)),
            taken_up(all.take(at as int)) == Ok::<_, Seq<char>>(anchors(roots)),
        decreases ordered.len() - at,
    {
        proof {
            assert(all.take(at + 1).drop_last() =~= all.take(at as int));
            assert(all.take(at + 1).last() == ordered@[at as int]@);
        }
        if let Err(fault) = add_anchor(&mut roots, clone_bytes(&ordered[at].der)) {
            let text: String = word_bad_cert(ordered[at].node, fault.as_str());
            proof {
                lemma_first_bad_decides(all, at + 1, text@);
            }
            return Err(text);
        }
        at = at + 1;
    }
    proof {
        assert(all.take(at as int) =~= all);
    }
    Ok(roots)
}

proof fn lemma_first_bad_decides(certs: Seq<PeerCertView>, n: int, text: Seq<char>)
    requires
        0 <= n <= certs.len(),
        taken_up(certs.take(n)) == Err::<Seq<(Seq<u8>, Seq<u8>, Option<Seq<u8>>)>, _>(text),
    ensures
        taken_up(certs) == Err::<Seq<(Seq<u8>, Seq<u8>, Option<Seq<u8>>)>, _>(text),
    decreases certs.len() - n,
{
    if n < certs.len() {
        assert(certs.take(n + 1).drop_last() =~= certs.take(n));
        lemma_first_bad_decides(certs, n + 1, text);
    } else {
        assert(certs.take(n) =~= certs);
    }
}

/// Says why the private key of a node cannot be used, if it is of no known form.
pub fn key_fault(key_der: &Vec<u8>) -> (fault: Option<String>)
    ensures
        match fault {
            Some(text) => key_fault_of(key_der@) == Some(text@),
            None => key_fault_of(key_der@) is None,
        },
{
    find_key_fault(clone_bytes(key_der))
}

proof fn lemma_slotted(certs: Seq<PeerCertView>, cert: PeerCertView)
    ensures
        forall|x: PeerCertView| #[trigger]
            slotted(certs, cert).contains(x) <==> certs.contains(x) || x == cert,
    decreases certs.len(),
{
    let result = slotted(certs, cert);
    if certs.len() > 0 && cert.node.0 < certs.last().node.0 {
        let front = certs.drop_last();
        let inner = slotted(front, cert);
        lemma_slotted(front, cert);
        assert forall|x: PeerCertView| #[trigger] result.contains(x) <==> certs.contains(x) || x
            == cert by {
            vstd::seq_lib::lemma_seq_contains_after_push(inner, certs.last(), x);
            vstd::seq_lib::lemma_seq_contains_after_push(front, certs.last(), x);
            assert(front.push(certs.last()) =~= certs);
            assert(inner.contains(x) <==> front.contains(x) || x == cert);
        }
    } else {
        assert forall|x: PeerCertView| #[trigger] result.contains(x) <==> certs.contains(x) || x
            == cert by {
            vstd::seq_lib::lemma_seq_contains_after_push(certs, cert, x);
        }
    }
}

proof fn lemma_by_node(certs: Seq<PeerCertView>)
    ensures
        forall|x: PeerCertView| #[trigger] by_node(certs).contains(x) <==> certs.contains(x),
    decreases certs.len(),
{
    if certs.len() > 0 {
        let front = certs.drop_last();
        lemma_by_node(front);
        lemma_slotted(by_node(front), certs.last());
        assert forall|x: PeerCertView| #[trigger] by_node(certs).contains(x) <==> certs.contains(
            x,
        ) by {
            vstd::seq_lib::lemma_seq_contains_after_push(front, certs.last(), x);
            assert(front.push(certs.last()) =~= certs);
            assert(by_node(front).contains(x) <==> front.contains(x));
        }
    }
}

proof fn lemma_taken_up(certs: Seq<PeerCertView>)
    ensures
        match taken_up(certs) {
            Ok(roots) => {
                &&& roots.len() == certs.len()
                &&& forall|i: int|
                    0 <= i < certs.len() ==> anchor_of((#[trigger] certs[i]).der) == Ok::<
                        _,
                        Seq<char>,
                    >(roots[i])
            },
            Err(text) => exists|i: int|
                0 <= i < certs.len() && anchor_of((#[trigger] certs[i]).der) is Err && text
                    == bad_cert(certs[i].node, anchor_of(certs[i].der)->Err_0),
        },
    decreases certs.len(),
{
    if certs.len() > 0 {
        let front = certs.drop_last();
        let last = certs.len() - 1;
        lemma_taken_up(front);
        match taken_up(front) {
            Err(text) => {
                let i = choose|i: int|
                    0 <= i < front.len() && anchor_of((#[trigger] front[i]).der) is Err && text
                        == bad_cert(front[i].node, anchor_of(front[i].der)->Err_0);
                assert(certs[i] == front[i]);
            },
            Ok(before) => {
                assert(certs[last] == certs.last());
                assert forall|i: int| 0 <= i < front.len() implies anchor_of(
                    (#[trigger] certs[i]).der,
                ) == Ok::<_, Seq<char>>(before[i]) by {
                    assert(front[i] == certs[i]);
                }
            },
        }
    }
}

/// Exactly the certificates given are trusted: pinning succeeds where each makes an anchor,
/// and then every anchor is of one of them and each of them has its anchor.
pub proof fn law_exactly_the_given_are_trusted(certs: Seq<PeerCertView>)
    ensures
        pinned_to(certs) is Ok <==> forall|i: int|
            0 <= i < certs.len() ==> anchor_of((#[trigger] certs[i]).der) is Ok,
        pinned_to(certs) matches Ok(roots) ==> {
            &&& forall|i: int|
                0 <= i < certs.len() ==> roots.contains(anchor_of((#[trigger] certs[i]).der)->Ok_0)
            &&& forall|k: int|
                0 <= k < roots.len() ==> exists|i: int|
                    0 <= i < certs.len() && anchor_of((#[trigger] certs[i]).der) == Ok::<
                        _,
                        Seq<char>,
                    >(#[trigger] roots[k])
        },
{
    let ordered = by_node(certs);
    lemma_by_node(certs);
    lemma_taken_up(ordered);
    match pinned_to(certs) {
        Ok(roots) => {
            assert forall|i: int| 0 <= i < certs.len() implies anchor_of(
                (#[trigger] certs[i]).der,
            ) is Ok && roots.contains(anchor_of(certs[i].der)->Ok_0) by {
                assert(certs.contains(certs[i]));
                assert(ordered.contains(certs[i]));
                let k = choose|k: int| 0 <= k < ordered.len() && ordered[k] == certs[i];
                assert(anchor_of(ordered[k].der) == Ok::<_, Seq<char>>(roots[k]));
            }
            assert forall|k: int| 0 <= k < roots.len() implies exists|i: int|
                0 <= i < certs.len() && anchor_of((#[trigger] certs[i]).der) == Ok::<_, Seq<char>>(
                    #[trigger] roots[k],
                ) by {
                assert(ordered.contains(ordered[k]));
                assert(certs.contains(ordered[k]));
                let i = choose|i: int| 0 <= i < certs.len() && certs[i] == ordered[k];
                assert(anchor_of(certs[i].der) == Ok::<_, Seq<char>>(roots[k]));
            }
        },
        Err(text) => {
            let k = choose|k: int|
                0 <= k < ordered.len() && anchor_of((#[trigger] ordered[k]).der) is Err && text
                    == bad_cert(ordered[k].node, anchor_of(ordered[k].der)->Err_0);
            assert(ordered.contains(ordered[k]));
            assert(certs.contains(ordered[k]));
            let i = choose|i: int| 0 <= i < certs.len() && certs[i] == ordered[k];
            assert(anchor_of(certs[i].der) is Err);
        },
    }
}

/// Of several certificates that cannot be trusted, the one of the lowest node is named:
/// every certificate of a lower node is fine.
pub proof fn law_the_lowest_fault_is_named(certs: Seq<PeerCertView>)
    ensures
        pinned_to(certs) matches Err(text) ==> exists|i: int|
            0 <= i < certs.len() && anchor_of((#[trigger] certs[i]).der) is Err && text
                == bad_cert(certs[i].node, anchor_of(certs[i].der)->Err_0) && forall|j: int|
                0 <= j < certs.len() && (#[trigger] certs[j]).node.0 < certs[i].node.0
                    ==> anchor_of(certs[j].der) is Ok,
{
    let ordered = by_node(certs);
    lemma_by_node(certs);
    lemma_nodes_in_order(certs);
    lemma_first_fault(ordered);
    if let Err(text) = pinned_to(certs) {
        let k = choose|k: int|
            0 <= k < ordered.len() && anchor_of((#[trigger] ordered[k]).der) is Err && text
                == bad_cert(ordered[k].node, anchor_of(ordered[k].der)->Err_0) && forall|j: int|
                0 <= j < k ==> anchor_of((#[trigger] ordered[j]).der) is Ok;
        assert(ordered.contains(ordered[k]));
        assert(certs.contains(ordered[k]));
        let i = choose|i: int| 0 <= i < certs.len() && certs[i] == ordered[k];
        assert forall|j: int|
            0 <= j < certs.len() && (#[trigger] certs[j]).node.0
                < certs[i].node.0 implies anchor_of(certs[j].der) is Ok by {
            assert(certs.contains(certs[j]));
            assert(ordered.contains(certs[j]));
            let m = choose|m: int| 0 <= m < ordered.len() && ordered[m] == certs[j];
            if m >= k {
                assert(ordered[k].node.0 <= ordered[m].node.0);
            }
            assert(anchor_of(ordered[m].der) is Ok);
        }
        assert(anchor_of(certs[i].der) is Err);
    }
}

proof fn lemma_first_fault(certs: Seq<PeerCertView>)
    ensures
        taken_up(certs) is Ok ==> forall|j: int|
            0 <= j < certs.len() ==> anchor_of((#[trigger] certs[j]).der) is Ok,
        taken_up(certs) matches Err(text) ==> exists|k: int|
            0 <= k < certs.len() && anchor_of((#[trigger] certs[k]).der) is Err && text
                == bad_cert(certs[k].node, anchor_of(certs[k].der)->Err_0) && forall|j: int|
                0 <= j < k ==> anchor_of((#[trigger] certs[j]).der) is Ok,
    decreases certs.len(),
{
    if certs.len() > 0 {
        let front = certs.drop_last();
        let last = certs.len() - 1;
        lemma_first_fault(front);
        assert forall|j: int| 0 <= j < last implies certs[j] == front[j] by {}
        match taken_up(front) {
            Err(text) => {
                let k = choose|k: int|
                    0 <= k < front.len() && anchor_of((#[trigger] front[k]).der) is Err && text
                        == bad_cert(front[k].node, anchor_of(front[k].der)->Err_0) && forall|j: int|
                        0 <= j < k ==> anchor_of((#[trigger] front[j]).der) is Ok;
                assert(certs[k] == front[k]);
                assert forall|j: int| 0 <= j < k implies anchor_of(
                    (#[trigger] certs[j]).der,
                ) is Ok by {
                    assert(front[j] == certs[j]);
                }
            },
            Ok(_) => {
                assert forall|j: int| 0 <= j < last implies anchor_of(
                    (#[trigger] certs[j]).der,
                ) is Ok by {
                    assert(front[j] == certs[j]);
                }
                assert(certs[last] == certs.last());
            },
        }
    }
}

proof fn lemma_nodes_in_order(certs: Seq<PeerCertView>)
    ensures
        forall|i: int, j: int|
            0 <= i <= j < by_node(certs).len() ==> (#[trigger] by_node(certs)[i]).node.0 <= (
            #[trigger] by_node(certs)[j]).node.0,
    decreases certs.len(),
{
    if certs.len() > 0 {
        lemma_nodes_in_order(certs.drop_last());
        lemma_slot_in_order(by_node(certs.drop_last()), certs.last());
    }
}

proof fn lemma_slot_in_order(certs: Seq<PeerCertView>, cert: PeerCertView)
    requires
        forall|i: int, j: int|
            0 <= i <= j < certs.len() ==> (#[trigger] certs[i]).node.0 <= (
            #[trigger] certs[j]).node.0,
    ensures
        forall|i: int, j: int|
            0 <= i <= j < slotted(certs, cert).len() ==> (#[trigger] slotted(
                certs,
                cert,
            )[i]).node.0 <= (#[trigger] slotted(certs, cert)[j]).node.0,
        forall|i: int|
            0 <= i < slotted(certs, cert).len() ==> #[trigger] slotted(certs, cert)[i] == cert
                || certs.contains(slotted(certs, cert)[i]),
    decreases certs.len(),
{
    let after = slotted(certs, cert);
    if certs.len() > 0 && cert.node.0 < certs.last().node.0 {
        let front = certs.drop_last();
        let last = certs.len() - 1;
        assert forall|i: int, j: int| 0 <= i <= j < front.len() implies (
        #[trigger] front[i]).node.0 <= (#[trigger] front[j]).node.0 by {
            assert(front[i] == certs[i] && front[j] == certs[j]);
        }
        lemma_slot_in_order(front, cert);
        let inner = slotted(front, cert);
        assert forall|i: int| 0 <= i < inner.len() implies (#[trigger] inner[i]).node.0
            <= certs.last().node.0 && (inner[i] == cert || certs.contains(inner[i])) by {
            if inner[i] != cert {
                assert(front.contains(inner[i]));
                let k = choose|k: int| 0 <= k < front.len() && front[k] == inner[i];
                assert(certs[k] == inner[i]);
                assert(certs[k].node.0 <= certs[last].node.0);
            }
        }
        assert forall|i: int| 0 <= i < after.len() implies #[trigger] after[i] == cert
            || certs.contains(after[i]) by {
            if i < inner.len() {
                assert(after[i] == inner[i]);
            } else {
                assert(certs[last] == after[i]);
            }
        }
        assert forall|i: int, j: int| 0 <= i <= j < after.len() implies (
        #[trigger] after[i]).node.0 <= (#[trigger] after[j]).node.0 by {
            if i < inner.len() {
                assert(after[i] == inner[i]);
            }
            if j < inner.len() {
                assert(after[j] == inner[j]);
            }
        }
    } else {
        assert forall|i: int| 0 <= i < after.len() implies #[trigger] after[i] == cert
            || certs.contains(after[i]) by {
            if i < certs.len() {
                assert(certs[i] == after[i]);
            }
        }
        assert forall|i: int, j: int| 0 <= i <= j < after.len() implies (
        #[trigger] after[i]).node.0 <= (#[trigger] after[j]).node.0 by {
            if i < certs.len() {
                assert(after[i] == certs[i]);
                assert(certs[i].node.0 <= certs[certs.len() - 1].node.0);
            }
            if j < certs.len() {
                assert(after[j] == certs[j]);
            }
        }
    }
}

} // verus!
