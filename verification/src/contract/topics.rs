use crate::address::B256;
use vstd::prelude::*;

verus! {

/// The kinds of event that the listener takes up, each with the signature
/// that names it on the chain. The Keccak-256 digest of the signature is the
/// first topic of every log of that kind.
#[derive(Clone, Copy, Debug, PartialEq, Eq, Structural)]
pub enum EventKind {
    /// `CoinCreated(uint32)`
    CoinCreated,
    /// `WeiInUpdated(uint32,uint256)`
    WeiInUpdated,
    /// `CoinGraduated(uint32)`
    CoinGraduated,
    /// `DeployedToDex(uint32,address)`
    DeployedToDex,
    /// `Swap(address,uint256,uint256,uint256,uint256,address)`
    Swap,
    /// `Sync(uint112,uint112)`
    Sync,
}

/// The first topic of the logs of each kind of event: the digest of its
/// signature.
pub open spec fn topic_of(kind: EventKind) -> Seq<u8> {
    match kind {
        EventKind::CoinCreated => seq![
            0xc5, 0x0e, 0x20, 0xc6, 0x42, 0x2a, 0xa3, 0xad,
            0xab, 0x95, 0x67, 0x81, 0xd3, 0xb6, 0xc3, 0xc1,
            0x5c, 0x04, 0x25, 0xa2, 0x8e, 0xdc, 0x5b, 0x2c,
            0xcb, 0x0a, 0xea, 0x99, 0xbe, 0x57, 0xd5, 0x7d,
        ],
        EventKind::WeiInUpdated => seq![
            0x99, 0x64, 0x3b, 0xd8, 0x22, 0x53, 0xac, 0x73,
            0x45, 0xf0, 0xbd, 0x6b, 0x69, 0xd4, 0xf1, 0x5f,
            0x4f, 0xa1, 0x31, 0x39, 0x42, 0xf1, 0xba, 0x7f,
            0x6c, 0xf0, 0x02, 0x0f, 0xbc, 0x00, 0x4b, 0x18,
        ],
        EventKind::CoinGraduated => seq![
            0x29, 0x42, 0x89, 0x6d, 0xb7, 0x5c, 0x9d, 0x39,
            0x5b, 0xb4, 0x6e, 0x7d, 0xcc, 0x53, 0x48, 0x91,
            0x59, 0x46, 0x18, 0x58, 0xed, 0x08, 0x23, 0x19,
            0xbc, 0xc2, 0x54, 0x88, 0xc1, 0x1c, 0xc8, 0x90,
        ],
        EventKind::DeployedToDex => seq![
            0x3e, 0x64, 0x01, 0x6d, 0x0e, 0xd9, 0xfd, 0x7f,
            0xe6, 0xad, 0x13, 0xfd, 0x53, 0x2c, 0x2e, 0xd1,
            0x5a, 0xdb, 0xb9, 0x5b, 0x9d, 0x7c, 0xc3, 0x76,
            0x99, 0x6d, 0x8e, 0x61, 0x04, 0xa6, 0xee, 0x71,
        ],
        EventKind::Swap => seq![
            0xd7, 0x8a, 0xd9, 0x5f, 0xa4, 0x6c, 0x99, 0x4b,
            0x65, 0x51, 0xd0, 0xda, 0x85, 0xfc, 0x27, 0x5f,
            0xe6, 0x13, 0xce, 0x37, 0x65, 0x7f, 0xb8, 0xd5,
            0xe3, 0xd1, 0x30, 0x84, 0x01, 0x59, 0xd8, 0x22,
        ],
        EventKind::Sync => seq![
            0x1c, 0x41, 0x1e, 0x9a, 0x96, 0xe0, 0x71, 0x24,
            0x1c, 0x2f, 0x21, 0xf7, 0x72, 0x6b, 0x17, 0xae,
            0x89, 0xe3, 0xca, 0xb4, 0xc7, 0x8b, 0xe5, 0x0e,
            0x06, 0x2b, 0x03, 0xa9, 0xff, 0xfb, 0xba, 0xd1,
        ],
    }
}

impl EventKind {
    /// The first topic of the logs of this kind.
    pub fn topic(self) -> (r: B256)
        ensures
            r.bytes@ == topic_of(self),
    {
        let bytes: [u8; 32] = match self {
            EventKind::CoinCreated => [
                0xc5, 0x0e, 0x20, 0xc6, 0x42, 0x2a, 0xa3, 0xad,
                0xab, 0x95, 0x67, 0x81, 0xd3, 0xb6, 0xc3, 0xc1,
                0x5c, 0x04, 0x25, 0xa2, 0x8e, 0xdc, 0x5b, 0x2c,
                0xcb, 0x0a, 0xea, 0x99, 0xbe, 0x57, 0xd5, 0x7d,
            ],
            EventKind::WeiInUpdated => [
                0x99, 0x64, 0x3b, 0xd8, 0x22, 0x53, 0xac, 0x73,
                0x45, 0xf0, 0xbd, 0x6b, 0x69, 0xd4, 0xf1, 0x5f,
                0x4f, 0xa1, 0x31, 0x39, 0x42, 0xf1, 0xba, 0x7f,
                0x6c, 0xf0, 0x02, 0x0f, 0xbc, 0x00, 0x4b, 0x18,
            ],
            EventKind::CoinGraduated => [
                0x29, 0x42, 0x89, 0x6d, 0xb7, 0x5c, 0x9d, 0x39,
                0x5b, 0xb4, 0x6e, 0x7d, 0xcc, 0x53, 0x48, 0x91,
                0x59, 0x46, 0x18, 0x58, 0xed, 0x08, 0x23, 0x19,
                0xbc, 0xc2, 0x54, 0x88, 0xc1, 0x1c, 0xc8, 0x90,
            ],
            EventKind::DeployedToDex => [
                0x3e, 0x64, 0x01, 0x6d, 0x0e, 0xd9, 0xfd, 0x7f,
                0xe6, 0xad, 0x13, 0xfd, 0x53, 0x2c, 0x2e, 0xd1,
                0x5a, 0xdb, 0xb9, 0x5b, 0x9d, 0x7c, 0xc3, 0x76,
                0x99, 0x6d, 0x8e, 0x61, 0x04, 0xa6, 0xee, 0x71,
            ],
            EventKind::Swap => [
                0xd7, 0x8a, 0xd9, 0x5f, 0xa4, 0x6c, 0x99, 0x4b,
                0x65, 0x51, 0xd0, 0xda, 0x85, 0xfc, 0x27, 0x5f,
                0xe6, 0x13, 0xce, 0x37, 0x65, 0x7f, 0xb8, 0xd5,
                0xe3, 0xd1, 0x30, 0x84, 0x01, 0x59, 0xd8, 0x22,
            ],
            EventKind::Sync => [
                0x1c, 0x41, 0x1e, 0x9a, 0x96, 0xe0, 0x71, 0x24,
                0x1c, 0x2f, 0x21, 0xf7, 0x72, 0x6b, 0x17, 0xae,
                0x89, 0xe3, 0xca, 0xb4, 0xc7, 0x8b, 0xe5, 0x0e,
                0x06, 0x2b, 0x03, 0xa9, 0xff, 0xfb, 0xba, 0xd1,
            ],
        };
        assert(bytes@ =~= topic_of(self));
        B256 { bytes }
    }

    /// The kind of event that `topic` names, if it names one.
    pub fn from_topic(topic: &B256) -> (r: Option<EventKind>)
        ensures
            match r {
                Some(kind) => topic.bytes@ == topic_of(kind),
                None => forall|kind: EventKind| topic.bytes@ != topic_of(kind),
            },
    {
        let kinds = [
            EventKind::CoinCreated,
            EventKind::WeiInUpdated,
            EventKind::CoinGraduated,
            EventKind::DeployedToDex,
            EventKind::Swap,
            EventKind::Sync,
        ];
        let mut i: usize = 0;
        while i < 6
            invariant
                i <= 6,
                kinds@ == seq![
                    EventKind::CoinCreated,
                    EventKind::WeiInUpdated,
                    EventKind::CoinGraduated,
                    EventKind::DeployedToDex,
                    EventKind::Swap,
                    EventKind::Sync,
                ],
                forall|j: int| 0 <= j < i ==> topic.bytes@ != topic_of(#[trigger] kinds@[j]),
            decreases 6 - i,
        {
            let kind = kinds[i];
            let named = kind.topic();
            if *topic == named {
                return Some(kind);
            }
            proof {
                if topic.bytes@ == named.bytes@ {
                    assert(topic.bytes =~= named.bytes);
                }
            }
            i += 1;
        }
        proof {
            assert forall|kind: EventKind| topic.bytes@ != topic_of(kind) by {
                let j: int = match kind {
                    EventKind::CoinCreated => 0,
                    EventKind::WeiInUpdated => 1,
                    EventKind::CoinGraduated => 2,
                    EventKind::DeployedToDex => 3,
                    EventKind::Swap => 4,
                    EventKind::Sync => 5,
                };
                assert(kinds@[j] == kind);
            }
        }
        None
    }
}

/// No two kinds of event share a topic.
pub proof fn lemma_topics_differ(a: EventKind, b: EventKind)
    requires
        a != b,
    ensures
        topic_of(a) != topic_of(b),
{
    assert(topic_of(a)[0] != topic_of(b)[0]);
}

} // verus!
