//! Chain configuration scalars: the standard-library version selector, the
//! consensus strategy, and the chain identifier.

use vstd::prelude::*;

use crate::codec::{dec_str_of, dec_value_of, is_dec_body, parse_dec_u64, u64_to_dec_string};
use crate::errors::PipelineError;

verus! {

// ---------------------------------------------------------------------------
// standard-library version
// ---------------------------------------------------------------------------

/// Which standard-library release a network runs: the latest, or a pinned
/// version number.
#[derive(Clone, Copy, Debug, PartialEq, Eq, Structural)]
pub enum StdlibVersion {
    Latest,
    Version(u64),
}

/// The text rendering of a version selector: `latest`, or the decimal
/// version number.
pub open spec fn stdlib_version_str(v: StdlibVersion) -> Seq<char> {
    match v {
        StdlibVersion::Latest => seq!['l', 'a', 't', 'e', 's', 't'],
        StdlibVersion::Version(n) => dec_str_of(n as nat),
    }
}

impl StdlibVersion {
    /// Pins a concrete version number.
    pub fn new(version: u64) -> (r: StdlibVersion)
        ensures
            r == StdlibVersion::Version(version),
    {
        StdlibVersion::Version(version)
    }

    /// Renders the selector as text.
    pub fn as_string(&self) -> (r: String)
        ensures
            r@ == stdlib_version_str(*self),
    {
        match self {
            StdlibVersion::Latest => {
                proof {
                    reveal_strlit("latest");
                }
                let out = String::from_str("latest");
                proof {
                    assert(out@ =~= stdlib_version_str(*self));
                }
                out
            },
            StdlibVersion::Version(version) => u64_to_dec_string(*version),
        }
    }

    /// The numeric version, with `0` standing for the latest.
    pub fn version(&self) -> (r: u64)
        ensures
            r == match *self {
                StdlibVersion::Latest => 0u64,
                StdlibVersion::Version(v) => v,
            },
    {
        match self {
            StdlibVersion::Latest => 0,
            StdlibVersion::Version(version) => *version,
        }
    }

    /// Parses a selector: `latest`, or a decimal version number.
    pub fn parse(s: &str) -> (r: Result<StdlibVersion, PipelineError>)
        ensures
            match r {
                Ok(v) => (s@ == seq!['l', 'a', 't', 'e', 's', 't'] && v == StdlibVersion::Latest)
                    || (is_dec_body(s@) && dec_value_of(s@) <= u64::MAX && v
                    == StdlibVersion::Version(dec_value_of(s@) as u64)),
                Err(e) => s@ != seq!['l', 'a', 't', 'e', 's', 't'] && !(is_dec_body(s@)
                    && dec_value_of(s@) <= u64::MAX) && e == PipelineError::DecodeError,
            },
    {
        proof {
            reveal_strlit("latest");
            assert("latest"@ =~= seq!['l', 'a', 't', 'e', 's', 't']);
        }
        let owned = s.to_owned();
        if owned == String::from_str("latest") {
            proof {
                assert(s@ =~= seq!['l', 'a', 't', 'e', 's', 't']);
            }
            return Ok(StdlibVersion::Latest);
        }
        match parse_dec_u64(s) {
            Ok(v) => Ok(StdlibVersion::Version(v)),
            Err(e) => Err(e),
        }
    }
}

impl Default for StdlibVersion {
    /// The default selector is the latest release.
    fn default() -> (r: StdlibVersion)
        ensures
            r == StdlibVersion::Latest,
    {
        StdlibVersion::Latest
    }
}

// ---------------------------------------------------------------------------
// consensus strategy
// ---------------------------------------------------------------------------

/// The block-production strategy a network runs.
#[derive(Clone, Copy, Debug, PartialEq, Eq, Structural)]
pub enum ConsensusStrategy {
    Dummy,
    Argon,
    Keccak,
    CryptoNight,
}

/// The numeric tag of a strategy.
pub open spec fn consensus_strategy_value(s: ConsensusStrategy) -> u8 {
    match s {
        ConsensusStrategy::Dummy => 0u8,
        ConsensusStrategy::Argon => 1u8,
        ConsensusStrategy::Keccak => 2u8,
        ConsensusStrategy::CryptoNight => 3u8,
    }
}

/// The text rendering of a strategy.
pub open spec fn consensus_strategy_str(s: ConsensusStrategy) -> Seq<char> {
    match s {
        ConsensusStrategy::Dummy => seq!['d', 'u', 'm', 'm', 'y'],
        ConsensusStrategy::Argon => seq!['a', 'r', 'g', 'o', 'n'],
        ConsensusStrategy::Keccak => seq!['k', 'e', 'c', 'c', 'a', 'k'],
        ConsensusStrategy::CryptoNight => seq![
            'c',
            'r',
            'y',
            'p',
            't',
            'o',
            'n',
            'i',
            'g',
            'h',
            't',
        ],
    }
}

impl ConsensusStrategy {
    /// The numeric tag of the strategy.
    pub fn value(self) -> (r: u8)
        ensures
            r == consensus_strategy_value(self),
    {
        match self {
            ConsensusStrategy::Dummy => 0,
            ConsensusStrategy::Argon => 1,
            ConsensusStrategy::Keccak => 2,
            ConsensusStrategy::CryptoNight => 3,
        }
    }

    /// Renders the strategy as text.
    pub fn as_text(&self) -> (r: String)
        ensures
            r@ == consensus_strategy_str(*self),
    {
        proof {
            reveal_strlit("dummy");
            reveal_strlit("argon");
            reveal_strlit("keccak");
            reveal_strlit("cryptonight");
        }
        let out = match self {
            ConsensusStrategy::Dummy => String::from_str("dummy"),
            ConsensusStrategy::Argon => String::from_str("argon"),
            ConsensusStrategy::Keccak => String::from_str("keccak"),
            ConsensusStrategy::CryptoNight => String::from_str("cryptonight"),
        };
        proof {
            assert(out@ =~= consensus_strategy_str(*self));
        }
        out
    }

    /// Parses a strategy name. Fails with `DecodeError` on any other text.
    pub fn parse(s: &str) -> (r: Result<ConsensusStrategy, PipelineError>)
        ensures
            match r {
                Ok(v) => s@ == consensus_strategy_str(v),
                Err(e) => (forall|v: ConsensusStrategy| s@ != consensus_strategy_str(v)) && e
                    == PipelineError::DecodeError,
            },
    {
        proof {
            reveal_strlit("dummy");
            reveal_strlit("argon");
            reveal_strlit("keccak");
            reveal_strlit("cryptonight");
            assert("dummy"@ =~= consensus_strategy_str(ConsensusStrategy::Dummy));
            assert("argon"@ =~= consensus_strategy_str(ConsensusStrategy::Argon));
            assert("keccak"@ =~= consensus_strategy_str(ConsensusStrategy::Keccak));
            assert("cryptonight"@ =~= consensus_strategy_str(ConsensusStrategy::CryptoNight));
        }
        let owned = s.to_owned();
        let r = if owned == String::from_str("dummy") {
            Ok(ConsensusStrategy::Dummy)
        } else if owned == String::from_str("argon") {
            Ok(ConsensusStrategy::Argon)
        } else if owned == String::from_str("keccak") {
            Ok(ConsensusStrategy::Keccak)
        } else if owned == String::from_str("cryptonight") {
            Ok(ConsensusStrategy::CryptoNight)
        } else {
            Err(PipelineError::DecodeError)
        };
        proof {
            if r is Err {
                assert forall|v: ConsensusStrategy| s@ != consensus_strategy_str(v) by {
                    assert(s@ != consensus_strategy_str(ConsensusStrategy::Dummy));
                    assert(s@ != consensus_strategy_str(ConsensusStrategy::Argon));
                    assert(s@ != consensus_strategy_str(ConsensusStrategy::Keccak));
                    assert(s@ != consensus_strategy_str(ConsensusStrategy::CryptoNight));
                }
            }
        }
        r
    }
}

impl Default for ConsensusStrategy {
    /// The default strategy.
    fn default() -> (r: ConsensusStrategy)
        ensures
            r == ConsensusStrategy::Dummy,
    {
        ConsensusStrategy::Dummy
    }
}

// ---------------------------------------------------------------------------
// chain id
// ---------------------------------------------------------------------------

/// The numeric identity of a chain; `255` names the test chain.
#[derive(Clone, Copy, Debug, PartialEq, Eq, Hash, Structural)]
pub struct ChainId {
    id: u8,
}

impl ChainId {
    /// The numeric id.
    pub closed spec fn spec_id(&self) -> u8 {
        self.id
    }

    /// Wraps a numeric chain id.
    pub fn new(id: u8) -> (r: ChainId)
        ensures
            r.spec_id() == id,
    {
        ChainId { id }
    }

    /// The numeric id.
    pub fn id(self) -> (r: u8)
        ensures
            r == self.spec_id(),
    {
        self.id
    }

    /// The test chain.
    pub fn test() -> (r: ChainId)
        ensures
            r.spec_id() == 255u8,
    {
        ChainId::new(255)
    }

    /// Renders the id as a decimal string.
    pub fn as_text(&self) -> (r: String)
        ensures
            r@ == dec_str_of(self.spec_id() as nat),
    {
        u64_to_dec_string(self.id as u64)
    }

    /// Parses a decimal chain id. Fails with `DecodeError` when the text is
    /// not a decimal number that fits in eight bits.
    pub fn parse(s: &str) -> (r: Result<ChainId, PipelineError>)
        ensures
            match r {
                Ok(c) => is_dec_body(s@) && dec_value_of(s@) <= 255 && c.spec_id() as nat
                    == dec_value_of(s@),
                Err(e) => !(is_dec_body(s@) && dec_value_of(s@) <= 255) && e
                    == PipelineError::DecodeError,
            },
    {
        match parse_dec_u64(s) {
            Ok(v) => {
                if v <= 255 {
                    Ok(ChainId::new(v as u8))
                } else {
                    Err(PipelineError::DecodeError)
                }
            },
            Err(_) => Err(PipelineError::DecodeError),
        }
    }
}

} // verus!

verus! {

/// No two strategies share a rendering, so decoding a rendered strategy
/// can only give the original back.
pub proof fn lemma_consensus_strategy_str_injective(a: ConsensusStrategy, b: ConsensusStrategy)
    requires
        consensus_strategy_str(a) == consensus_strategy_str(b),
    ensures
        a == b,
{
}

/// No two version selectors share a rendering: `latest` is not a decimal
/// body, and distinct numbers render to distinct decimal bodies.
pub proof fn lemma_stdlib_version_str_injective(a: StdlibVersion, b: StdlibVersion)
    requires
        stdlib_version_str(a) == stdlib_version_str(b),
    ensures
        a == b,
{
    match (a, b) {
        (StdlibVersion::Latest, StdlibVersion::Latest) => {},
        (StdlibVersion::Version(n), StdlibVersion::Version(m)) => {
            crate::codec::lemma_dec_round_trip(n as nat);
            crate::codec::lemma_dec_round_trip(m as nat);
        },
        (StdlibVersion::Latest, StdlibVersion::Version(m)) => {
            crate::codec::lemma_dec_round_trip(m as nat);
            assert(!crate::codec::is_dec_digit(stdlib_version_str(a)[0]));
        },
        (StdlibVersion::Version(n), StdlibVersion::Latest) => {
            crate::codec::lemma_dec_round_trip(n as nat);
            assert(!crate::codec::is_dec_digit(stdlib_version_str(b)[0]));
        },
    }
}

} // verus!
