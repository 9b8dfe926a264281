//! The bridge registry: destination chains, the tokens each accepts, and the
//! trusted emitters of other chains.
use vstd::prelude::*;
use crate::bytes::bytes32_eq;
use crate::errors::ErrorCode;

verus! {

/// How many destination chains a bridge supports at most.
pub const MAX_SUPPORTED_CHAINS: usize = 10;

/// How many tokens a destination chain supports at most.
pub const MAX_SUPPORTED_TOKENS: usize = 20;

/// How a token is bridged to one destination chain.
#[derive(Debug, Clone, Copy, PartialEq, Eq)]
pub struct TokenConfig {
    pub mint: [u8; 32],
    pub dest_token_id: u64,
    pub min_amount: u64,
    pub max_amount: u64,
    pub enabled: bool,
}

/// A destination chain and the tokens it accepts.
pub struct ChainConfig {
    pub chain_id: u16,
    pub tokens: Vec<TokenConfig>,
}

/// The bridge's settings and its allow-list of destination chains.
pub struct BridgeConfig {
    pub authority: [u8; 32],
    pub treasury: [u8; 32],
    pub fee_basis_points: u16,
    pub paused: bool,
    /// The chain this bridge runs on.
    pub local_chain_id: u16,
    /// The finality level asked of the message transport.
    pub finality: u8,
    pub supported_chains: Vec<ChainConfig>,
}

/// In a list without duplicates an element's index is where it stands.
pub proof fn lemma_index_of_unique<A>(s: Seq<A>, i: int)
    requires
        s.no_duplicates(),
        0 <= i < s.len(),
    ensures
        s.index_of(s[i]) == i,
{
    assert(s.contains(s[i]));
    let k = s.index_of(s[i]);
    assert(s[k] == s[i]);
}

/// The mints of a token list.
pub open spec fn mints(tokens: Seq<TokenConfig>) -> Seq<[u8; 32]> {
    tokens.map_values(|t: TokenConfig| t.mint)
}

impl ChainConfig {
    pub open spec fn wf(&self) -> bool {
        &&& self.tokens@.len() <= MAX_SUPPORTED_TOKENS
        &&& mints(self.tokens@).no_duplicates()
    }
}

impl BridgeConfig {
    pub open spec fn chain_ids(&self) -> Seq<u16> {
        self.supported_chains@.map_values(|c: ChainConfig| c.chain_id)
    }

    pub open spec fn wf(&self) -> bool {
        &&& self.supported_chains@.len() <= MAX_SUPPORTED_CHAINS
        &&& self.chain_ids().no_duplicates()
        &&& forall|i: int|
            0 <= i < self.supported_chains@.len() ==> #[trigger] self.supported_chains@[i].wf()
    }

    /// The configuration of chain `chain_id`; meaningful when it is supported.
    pub open spec fn chain(&self, chain_id: u16) -> ChainConfig {
        self.supported_chains@[self.chain_ids().index_of(chain_id)]
    }

    /// The registry lookup of token `mint` towards chain `chain_id`.
    pub open spec fn lookup(&self, chain_id: u16, mint: [u8; 32]) -> Result<TokenConfig, ErrorCode> {
        if !self.chain_ids().contains(chain_id) {
            Err(ErrorCode::ChainNotSupported)
        } else {
            let tokens = self.chain(chain_id).tokens@;
            if !mints(tokens).contains(mint) {
                Err(ErrorCode::TokenNotSupported)
            } else {
                Ok(tokens[mints(tokens).index_of(mint)])
            }
        }
    }

    /// Where chain `chain_id` stands in the list.
    pub fn find_chain(&self, chain_id: u16) -> (r: Option<usize>)
        requires
            self.wf(),
        ensures
            r is None <==> !self.chain_ids().contains(chain_id),
            r matches Some(i) ==> i < self.supported_chains@.len() && i
                == self.chain_ids().index_of(chain_id),
    {
        let mut i: usize = 0;
        while i < self.supported_chains.len()
            invariant
                0 <= i <= self.supported_chains@.len(),
                self.wf(),
                forall|j: int| 0 <= j < i ==> self.chain_ids()[j] != chain_id,
            decreases self.supported_chains@.len() - i,
        {
            if self.supported_chains[i].chain_id == chain_id {
                assert(self.chain_ids()[i as int] == chain_id);
                proof {
                    lemma_index_of_unique(self.chain_ids(), i as int);
                }
                return Some(i);
            }
            i += 1;
        }
        None
    }
}

/// Where token `mint` stands in a chain's list.
pub fn find_token(tokens: &Vec<TokenConfig>, mint: &[u8; 32]) -> (r: Option<usize>)
    requires
        mints(tokens@).no_duplicates(),
    ensures
        r is None <==> !mints(tokens@).contains(*mint),
        r matches Some(i) ==> i < tokens@.len() && i == mints(tokens@).index_of(*mint),
{
    let mut i: usize = 0;
    while i < tokens.len()
        invariant
            0 <= i <= tokens@.len(),
            mints(tokens@).no_duplicates(),
            forall|j: int| 0 <= j < i ==> mints(tokens@)[j] != *mint,
        decreases tokens@.len() - i,
    {
        if bytes32_eq(&tokens[i].mint, mint) {
            assert(mints(tokens@)[i as int] == *mint);
            proof {
                lemma_index_of_unique(mints(tokens@), i as int);
            }
            return Some(i);
        }
        i += 1;
    }
    None
}

/// Looks up how token `mint` is bridged to chain `chain_id`.
pub fn find_token_config(config: &BridgeConfig, chain_id: u16, mint: &[u8; 32]) -> (r: Result<
    TokenConfig,
    ErrorCode,
>)
    requires
        config.wf(),
    ensures
        r == config.lookup(chain_id, *mint),
{
    let ci = match config.find_chain(chain_id) {
        Some(i) => i,
        None => return Err(ErrorCode::ChainNotSupported),
    };
    let chain = &config.supported_chains[ci];
    assert(chain.wf());
    match find_token(&chain.tokens, mint) {
        Some(ti) => Ok(chain.tokens[ti]),
        None => Err(ErrorCode::TokenNotSupported),
    }
}

/// Creates an unpaused bridge that supports no chain yet.
pub fn initialize_bridge(
    authority: [u8; 32],
    treasury: [u8; 32],
    fee_basis_points: u16,
    finality: u8,
    local_chain_id: u16,
) -> (r: BridgeConfig)
    ensures
        r.wf(),
        r.authority == authority,
        r.treasury == treasury,
        r.fee_basis_points == fee_basis_points,
        r.finality == finality,
        r.local_chain_id == local_chain_id,
        !r.paused,
        r.supported_chains@.len() == 0,
{
    BridgeConfig {
        authority,
        treasury,
        fee_basis_points,
        paused: false,
        local_chain_id,
        finality,
        supported_chains: Vec::new(),
    }
}

/// Changes the bridge's fee, finality, paused flag and treasury; each `None`
/// leaves its setting as it is. Only the bridge's authority may do so.
pub fn update_bridge_config(
    config: &mut BridgeConfig,
    caller: &[u8; 32],
    fee_basis_points: Option<u16>,
    finality: Option<u8>,
    paused: Option<bool>,
    treasury: Option<[u8; 32]>,
) -> (r: Result<(), ErrorCode>)
    requires
        old(config).wf(),
    ensures
        final(config).wf(),
        *caller != old(config).authority <==> r is Err,
        r is Err ==> r == Err::<(), ErrorCode>(ErrorCode::Unauthorized) && *final(config) == *old(
            config),
        r is Ok ==> *final(config) == (BridgeConfig {
            fee_basis_points: match fee_basis_points {
                Some(v) => v,
                None => old(config).fee_basis_points,
            },
            finality: match finality {
                Some(v) => v,
                None => old(config).finality,
            },
            paused: match paused {
                Some(v) => v,
                None => old(config).paused,
            },
            treasury: match treasury {
                Some(v) => v,
                None => old(config).treasury,
            },
            ..*old(config)
        }),
{
    if !bytes32_eq(caller, &config.authority) {
        return Err(ErrorCode::Unauthorized);
    }
    if let Some(v) = fee_basis_points {
        config.fee_basis_points = v;
    }
    if let Some(v) = finality {
        config.finality = v;
    }
    if let Some(v) = paused {
        config.paused = v;
    }
    if let Some(v) = treasury {
        config.treasury = v;
    }
    Ok(())
}

/// Pauses or resumes the bridge. Only the bridge's authority may do so.
pub fn set_bridge_paused(config: &mut BridgeConfig, caller: &[u8; 32], paused: bool) -> (r: Result<
    (),
    ErrorCode,
>)
    requires
        old(config).wf(),
    ensures
        final(config).wf(),
        *caller != old(config).authority <==> r is Err,
        r is Err ==> r == Err::<(), ErrorCode>(ErrorCode::Unauthorized) && *final(config) == *old(
            config),
        r is Ok ==> *final(config) == (BridgeConfig { paused, ..*old(config) }),
{
    if !bytes32_eq(caller, &config.authority) {
        return Err(ErrorCode::Unauthorized);
    }
    config.paused = paused;
    Ok(())
}

/// Why adding chain `chain_id` is refused, if it is.
pub open spec fn add_chain_error(config: BridgeConfig, caller: [u8; 32], chain_id: u16) -> Option<
    ErrorCode,
> {
    if caller != config.authority {
        Some(ErrorCode::Unauthorized)
    } else if config.chain_ids().contains(chain_id) {
        Some(ErrorCode::ChainAlreadySupported)
    } else if config.supported_chains@.len() >= MAX_SUPPORTED_CHAINS {
        Some(ErrorCode::TooManyChains)
    } else {
        None
    }
}

/// `a` and `b` agree on every setting but the chain list.
pub open spec fn same_settings(a: BridgeConfig, b: BridgeConfig) -> bool {
    &&& b.authority == a.authority
    &&& b.treasury == a.treasury
    &&& b.fee_basis_points == a.fee_basis_points
    &&& b.paused == a.paused
    &&& b.local_chain_id == a.local_chain_id
    &&& b.finality == a.finality
}

/// `new` is `old` with chain `chain_id` appended, with no token.
pub open spec fn chain_added(old: BridgeConfig, new: BridgeConfig, chain_id: u16) -> bool {
    &&& same_settings(old, new)
    &&& new.chain_ids() == old.chain_ids().push(chain_id)
    &&& new.chain(chain_id).tokens@.len() == 0
    &&& forall|c: u16|
        #![trigger new.chain(c)]
        old.chain_ids().contains(c) ==> new.chain(c) == old.chain(c)
}

/// Adds destination chain `chain_id`, with no token yet.
pub fn add_destination_chain(config: &mut BridgeConfig, caller: &[u8; 32], chain_id: u16) -> (r:
    Result<(), ErrorCode>)
    requires
        old(config).wf(),
    ensures
        final(config).wf(),
        add_chain_error(*old(config), *caller, chain_id) matches Some(e) ==> r == Err::<
            (),
            ErrorCode,
        >(e) && *final(config) == *old(config),
        add_chain_error(*old(config), *caller, chain_id) is None ==> r is Ok && chain_added(
            *old(config),
            *final(config),
            chain_id,
        ),
{
    if !bytes32_eq(caller, &config.authority) {
        return Err(ErrorCode::Unauthorized);
    }
    if config.find_chain(chain_id).is_some() {
        return Err(ErrorCode::ChainAlreadySupported);
    }
    if config.supported_chains.len() >= MAX_SUPPORTED_CHAINS {
        return Err(ErrorCode::TooManyChains);
    }
    let ghost before = config.chain_ids();
    config.supported_chains.push(ChainConfig { chain_id, tokens: Vec::new() });
    assert(config.chain_ids() =~= before.push(chain_id));
    proof {
        let n = before.len() as int;
        assert(config.chain_ids()[n] == chain_id);
        lemma_index_of_unique(config.chain_ids(), n);
        assert forall|c: u16|
            #![trigger config.chain(c)]
            before.contains(c) implies config.chain(c) == old(config).chain(c) by {
            let k = before.index_of(c);
            assert(config.chain_ids()[k] == c);
            lemma_index_of_unique(config.chain_ids(), k);
        }
        assert(mints(config.supported_chains@[n].tokens@) =~= Seq::empty());
    }
    Ok(())
}

/// Why adding token `mint` to chain `chain_id` is refused, if it is.
pub open spec fn add_token_error(
    config: BridgeConfig,
    caller: [u8; 32],
    chain_id: u16,
    mint: [u8; 32],
) -> Option<ErrorCode> {
    if caller != config.authority {
        Some(ErrorCode::Unauthorized)
    } else if !config.chain_ids().contains(chain_id) {
        Some(ErrorCode::ChainNotSupported)
    } else if mints(config.chain(chain_id).tokens@).contains(mint) {
        Some(ErrorCode::TokenAlreadySupported)
    } else if config.chain(chain_id).tokens@.len() >= MAX_SUPPORTED_TOKENS {
        Some(ErrorCode::TooManyTokens)
    } else {
        None
    }
}

/// `new` is `old` with `token` appended to the tokens of chain `chain_id`.
pub open spec fn token_added(
    old: BridgeConfig,
    new: BridgeConfig,
    chain_id: u16,
    token: TokenConfig,
) -> bool {
    &&& same_settings(old, new)
    &&& new.chain_ids() == old.chain_ids()
    &&& new.chain(chain_id).tokens@ == old.chain(chain_id).tokens@.push(token)
    &&& forall|c: u16|
        #![trigger new.chain(c)]
        old.chain_ids().contains(c) && c != chain_id ==> new.chain(c) == old.chain(c)
}

/// Lets chain `chain_id` accept token `mint`, enabled, within
/// `[min_amount, max_amount]`.
pub fn add_supported_token(
    config: &mut BridgeConfig,
    caller: &[u8; 32],
    chain_id: u16,
    mint: [u8; 32],
    dest_token_id: u64,
    min_amount: u64,
    max_amount: u64,
) -> (r: Result<(), ErrorCode>)
    requires
        old(config).wf(),
    ensures
        final(config).wf(),
        add_token_error(*old(config), *caller, chain_id, mint) matches Some(e) ==> r == Err::<
            (),
            ErrorCode,
        >(e) && *final(config) == *old(config),
        add_token_error(*old(config), *caller, chain_id, mint) is None ==> r is Ok && token_added(
            *old(config),
            *final(config),
            chain_id,
            TokenConfig { mint, dest_token_id, min_amount, max_amount, enabled: true },
        ),
{
    if !bytes32_eq(caller, &config.authority) {
        return Err(ErrorCode::Unauthorized);
    }
    let ci = match config.find_chain(chain_id) {
        Some(i) => i,
        None => return Err(ErrorCode::ChainNotSupported),
    };
    assert(config.supported_chains@[ci as int].wf());
    if find_token(&config.supported_chains[ci].tokens, &mint).is_some() {
        return Err(ErrorCode::TokenAlreadySupported);
    }
    if config.supported_chains[ci].tokens.len() >= MAX_SUPPORTED_TOKENS {
        return Err(ErrorCode::TooManyTokens);
    }
    let token = TokenConfig { mint, dest_token_id, min_amount, max_amount, enabled: true };
    let ghost before = config.supported_chains@;
    config.supported_chains[ci].tokens.push(token);
    proof {
        let after = config.supported_chains@;
        assert(forall|k: int| 0 <= k < after.len() && k != ci ==> after[k] == before[k]);
        assert(config.chain_ids() =~= old(config).chain_ids());
        assert(mints(after[ci as int].tokens@) =~= mints(before[ci as int].tokens@).push(mint));
        assert forall|i: int| 0 <= i < after.len() implies #[trigger] after[i].wf() by {
            if i != ci {
                assert(before[i].wf());
            }
        }
        assert forall|c: u16|
            #![trigger config.chain(c)]
            old(config).chain_ids().contains(c) && c != chain_id implies config.chain(c)
            == old(config).chain(c) by {
            let k = old(config).chain_ids().index_of(c);
            assert(old(config).chain_ids()[k] == c);
        }
    }
    Ok(())
}

} // verus!
