use vstd::prelude::*;

use crate::types::PeerPubkey;

verus! {

/// Consensus item of the meta module.
#[derive(Debug)]
pub enum MetaCitem {
    /// Vote for `value` as the value of `key`.
    ProposeValue { key: u8, value: Vec<u8> },
    /// Vote for the value that `peer_pubkey` voted for `key`.
    ApproveVote { key: u8, peer_pubkey: PeerPubkey },
}

/// Plain form of a meta consensus item.
pub enum MetaCitemView {
    ProposeValue { key: u8, value: Seq<u8> },
    ApproveVote { key: u8, peer_pubkey: PeerPubkey },
}

impl View for MetaCitem {
    type V = MetaCitemView;

    open spec fn view(&self) -> MetaCitemView {
        match self {
            MetaCitem::ProposeValue { key, value } => MetaCitemView::ProposeValue {
                key: *key,
                value: value@,
            },
            MetaCitem::ApproveVote { key, peer_pubkey } => MetaCitemView::ApproveVote {
                key: *key,
                peer_pubkey: *peer_pubkey,
            },
        }
    }
}

/// The items of a sequence in their plain form.
pub open spec fn citems_view(s: Seq<MetaCitem>) -> Seq<MetaCitemView> {
    s.map_values(|c: MetaCitem| c@)
}

} // verus!
