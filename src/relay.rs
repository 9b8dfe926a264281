//! Cross-chain relay: outbound transfers and their wire message, inbound
//! messages and their replay guard, and the transfer state machine.
use vstd::prelude::*;
use crate::bridge::{find_token_config, BridgeConfig, TokenConfig};
use crate::bytes::{
    lemma_u16_be_round_trip,
    lemma_u64_be_round_trip,
    be_u16,
    be_u32,
    be_u64,
    push_bytes32,
    push_u16_be,
    push_u32_be,
    push_u64_be,
    bytes32_eq,
    read_bytes32,
    read_u16_be,
    read_u64_be,
    u16_of_be,
    u64_of_be,
};
use crate::emitter::EmitterRegistry;
use crate::errors::ErrorCode;
use crate::pool::BASIS_POINTS;
use crate::tree::MerkleTree;

verus! {

/// The tag that opens every bridge message.
pub const PAYLOAD_ID: u8 = 100;

/// The length of an outbound message.
pub const PAYLOAD_LEN: usize = 113;

/// The shortest inbound message that carries every field read from it.
pub const MIN_INBOUND_PAYLOAD_LEN: usize = 109;

/// Where a bridge transfer stands. `Pending` leads to `Completed` or
/// `Failed`, both final.
#[derive(Debug, Clone, Copy, PartialEq, Eq, Structural)]
pub enum TransferStatus {
    Pending,
    Completed,
    Failed,
}

impl Default for TransferStatus {
    fn default() -> (r: TransferStatus)
        ensures
            r == TransferStatus::Pending,
    {
        TransferStatus::Pending
    }
}

/// The record of an outbound transfer.
#[derive(Debug, Clone, Copy, PartialEq, Eq)]
pub struct BridgeTransfer {
    pub dest_chain_id: u16,
    /// The net amount, which the destination chain releases.
    pub amount: u64,
    pub token_mint: [u8; 32],
    pub dest_token_id: u64,
    pub commitment: [u8; 32],
    pub dest_address: [u8; 32],
    /// The sequence number the message transport gave the message.
    pub sequence: u64,
    pub timestamp: i64,
    pub status: TransferStatus,
}

/// An accepted outbound transfer, before funds move: the caller moves
/// `amount` from the sender into the vault and `fee` from the vault to the
/// treasury, publishes `payload`, and then records the transfer.
pub struct OutboundTransfer {
    pub amount: u64,
    pub fee: u64,
    pub net_amount: u64,
    pub token: TokenConfig,
    pub dest_chain_id: u16,
    pub dest_address: [u8; 32],
    pub commitment: [u8; 32],
    pub nonce: u32,
    pub payload: Vec<u8>,
}

/// The bridge fee on `amount`: `amount * fee_bp / 10000`, rounded down.
pub open spec fn bridge_fee(amount: u64, fee_bp: u16) -> int {
    (amount as int * fee_bp as int) / (BASIS_POINTS as int)
}

/// The outbound wire message: tag, net amount, asset, source chain,
/// destination chain, destination address, commitment, nonce; integers
/// big-endian.
pub open spec fn outbound_payload(
    net_amount: u64,
    asset: [u8; 32],
    source_chain_id: u16,
    dest_chain_id: u16,
    dest_address: [u8; 32],
    commitment: [u8; 32],
    nonce: u32,
) -> Seq<u8> {
    seq![PAYLOAD_ID] + be_u64(net_amount) + asset@ + be_u16(source_chain_id) + be_u16(dest_chain_id)
        + dest_address@ + commitment@ + be_u32(nonce)
}

/// Why an outbound transfer is refused, if it is, in the order checked; on
/// success the token's configuration.
pub open spec fn outbound_check(
    config: BridgeConfig,
    tree: MerkleTree,
    mint: [u8; 32],
    amount: u64,
    dest_chain_id: u16,
) -> Result<TokenConfig, ErrorCode> {
    if config.paused {
        Err(ErrorCode::BridgePaused)
    } else {
        match config.lookup(dest_chain_id, mint) {
            Err(e) => Err(e),
            Ok(t) => if !t.enabled {
                Err(ErrorCode::TokenNotEnabled)
            } else if amount < t.min_amount || amount > t.max_amount {
                Err(ErrorCode::InvalidAmount)
            } else if bridge_fee(amount, config.fee_basis_points) > amount {
                Err(ErrorCode::ArithmeticOverflow)
            } else if tree.is_full_spec() {
                Err(ErrorCode::MerkleTreeFull)
            } else {
                Ok(t)
            },
        }
    }
}

/// Builds the outbound wire message.
pub fn build_outbound_payload(
    net_amount: u64,
    asset: &[u8; 32],
    source_chain_id: u16,
    dest_chain_id: u16,
    dest_address: &[u8; 32],
    commitment: &[u8; 32],
    nonce: u32,
) -> (r: Vec<u8>)
    ensures
        r@ == outbound_payload(
            net_amount,
            *asset,
            source_chain_id,
            dest_chain_id,
            *dest_address,
            *commitment,
            nonce,
        ),
        r@.len() == PAYLOAD_LEN,
{
    let mut p: Vec<u8> = Vec::new();
    p.push(PAYLOAD_ID);
    assert(p@ =~= seq![PAYLOAD_ID]);
    push_u64_be(&mut p, net_amount);
    push_bytes32(&mut p, asset);
    push_u16_be(&mut p, source_chain_id);
    push_u16_be(&mut p, dest_chain_id);
    push_bytes32(&mut p, dest_address);
    push_bytes32(&mut p, commitment);
    push_u32_be(&mut p, nonce);
    p
}

/// Accepts or refuses an outbound transfer of `amount` of token `mint` to
/// chain `dest_chain_id`. Nothing is changed here: on refusal no funds may
/// move; on acceptance the result says what moves and what is published.
pub fn initiate_cross_chain_transfer(
    config: &BridgeConfig,
    tree: &MerkleTree,
    mint: &[u8; 32],
    amount: u64,
    dest_chain_id: u16,
    dest_address: [u8; 32],
    commitment: [u8; 32],
    nonce: u32,
) -> (r: Result<OutboundTransfer, ErrorCode>)
    requires
        config.wf(),
        tree.wf(),
    ensures
        outbound_check(*config, *tree, *mint, amount, dest_chain_id) matches Err(e) ==> r == Err::<
            OutboundTransfer,
            ErrorCode,
        >(e),
        outbound_check(*config, *tree, *mint, amount, dest_chain_id) matches Ok(t) ==> r is Ok,
        r matches Ok(o) ==> {
            &&& outbound_check(*config, *tree, *mint, amount, dest_chain_id) == Ok::<
                TokenConfig,
                ErrorCode,
            >(o.token)
            &&& o.amount == amount
            &&& o.fee == bridge_fee(amount, config.fee_basis_points)
            &&& o.net_amount == amount - o.fee
            &&& o.dest_chain_id == dest_chain_id
            &&& o.dest_address == dest_address
            &&& o.commitment == commitment
            &&& o.nonce == nonce
            &&& o.payload@ == outbound_payload(
                o.net_amount,
                *mint,
                config.local_chain_id,
                dest_chain_id,
                dest_address,
                commitment,
                nonce,
            )
        },
{
    if config.paused {
        return Err(ErrorCode::BridgePaused);
    }
    let token = match find_token_config(config, dest_chain_id, mint) {
        Ok(t) => t,
        Err(e) => return Err(e),
    };
    if !token.enabled {
        return Err(ErrorCode::TokenNotEnabled);
    }
    if amount < token.min_amount || amount > token.max_amount {
        return Err(ErrorCode::InvalidAmount);
    }
    proof {
        let a = amount as int;
        let b = config.fee_basis_points as int;
        assert(0 <= a * b <= 0xffff_ffff_ffff_ffff * 0xffff) by (nonlinear_arith)
            requires
                0 <= a <= 0xffff_ffff_ffff_ffff,
                0 <= b <= 0xffff,
        ;
    }
    let fee_wide = (amount as u128) * (config.fee_basis_points as u128) / (BASIS_POINTS as u128);
    if fee_wide > amount as u128 {
        return Err(ErrorCode::ArithmeticOverflow);
    }
    if tree.is_full() {
        return Err(ErrorCode::MerkleTreeFull);
    }
    let fee = fee_wide as u64;
    let net_amount = amount - fee;
    let payload = build_outbound_payload(
        net_amount,
        mint,
        config.local_chain_id,
        dest_chain_id,
        &dest_address,
        &commitment,
        nonce,
    );
    Ok(
        OutboundTransfer {
            amount,
            fee,
            net_amount,
            token,
            dest_chain_id,
            dest_address,
            commitment,
            nonce,
            payload,
        },
    )
}

/// Records an accepted outbound transfer once its message was published
/// under `sequence`: mirrors the commitment into the accumulator and returns
/// the pending transfer.
pub fn record_cross_chain_transfer(
    tree: &mut MerkleTree,
    transfer: &OutboundTransfer,
    sequence: u64,
    timestamp: i64,
) -> (r: Result<BridgeTransfer, ErrorCode>)
    requires
        old(tree).wf(),
    ensures
        final(tree).wf(),
        old(tree).is_full_spec() <==> r is Err,
        r is Err ==> r == Err::<BridgeTransfer, ErrorCode>(ErrorCode::MerkleTreeFull) && *final(tree) == *old(tree),
        r is Ok ==> final(tree).leaves@ == old(tree).leaves@.push(transfer.commitment) && r
            == Ok::<BridgeTransfer, ErrorCode>(
            BridgeTransfer {
                dest_chain_id: transfer.dest_chain_id,
                amount: transfer.net_amount,
                token_mint: transfer.token.mint,
                dest_token_id: transfer.token.dest_token_id,
                commitment: transfer.commitment,
                dest_address: transfer.dest_address,
                sequence,
                timestamp,
                status: TransferStatus::Pending,
            },
        ),
{
    match tree.append(transfer.commitment) {
        Ok(_) => {},
        Err(_) => return Err(ErrorCode::MerkleTreeFull),
    }
    Ok(
        BridgeTransfer {
            dest_chain_id: transfer.dest_chain_id,
            amount: transfer.net_amount,
            token_mint: transfer.token.mint,
            dest_token_id: transfer.token.dest_token_id,
            commitment: transfer.commitment,
            dest_address: transfer.dest_address,
            sequence,
            timestamp,
            status: TransferStatus::Pending,
        },
    )
}

/// Closes a pending transfer as `Completed` when `succeeded`, else as
/// `Failed`. A closed transfer never changes again.
pub fn conclude_transfer(transfer: &mut BridgeTransfer, succeeded: bool) -> (r: Result<(), ErrorCode>)
    ensures
        old(transfer).status != TransferStatus::Pending <==> r is Err,
        r is Err ==> r == Err::<(), ErrorCode>(ErrorCode::TransferAlreadyProcessed) && *final(transfer) == *old(transfer),
        r is Ok ==> *final(transfer) == (BridgeTransfer {
            status: if succeeded {
                TransferStatus::Completed
            } else {
                TransferStatus::Failed
            },
            ..*old(transfer)
        }),
{
    if transfer.status != TransferStatus::Pending {
        return Err(ErrorCode::TransferAlreadyProcessed);
    }
    transfer.status = if succeeded {
        TransferStatus::Completed
    } else {
        TransferStatus::Failed
    };
    Ok(())
}

/// A message from another chain, as the transport delivered it after
/// checking its signatures.
pub struct InboundMessage {
    pub emitter_chain: u16,
    pub emitter_address: [u8; 32],
    pub sequence: u64,
    pub payload: Vec<u8>,
}

/// The marker of a processed inbound message.
#[derive(Debug, Clone, Copy, PartialEq, Eq)]
pub struct ProcessedVaa {
    pub digest: [u8; 32],
    pub timestamp: i64,
}

/// The digests of processed inbound messages, one marker each.
pub struct ProcessedMessages {
    pub records: Vec<ProcessedVaa>,
}

impl ProcessedMessages {
    pub open spec fn digests(&self) -> Seq<[u8; 32]> {
        self.records@.map_values(|p: ProcessedVaa| p.digest)
    }

    pub open spec fn wf(&self) -> bool {
        self.digests().no_duplicates()
    }

    pub open spec fn was_processed(&self, digest: [u8; 32]) -> bool {
        self.digests().contains(digest)
    }

    pub fn new() -> (r: ProcessedMessages)
        ensures
            r.wf(),
            r.records@.len() == 0,
    {
        ProcessedMessages { records: Vec::new() }
    }

    /// Whether the message with `digest` was processed.
    pub fn contains(&self, digest: &[u8; 32]) -> (r: bool)
        ensures
            r == self.was_processed(*digest),
    {
        let mut i: usize = 0;
        while i < self.records.len()
            invariant
                0 <= i <= self.records@.len(),
                forall|j: int| 0 <= j < i ==> self.digests()[j] != *digest,
            decreases self.records@.len() - i,
        {
            if bytes32_eq(&self.records[i].digest, digest) {
                assert(self.digests()[i as int] == *digest);
                return true;
            }
            i += 1;
        }
        false
    }
}

/// What processing an inbound message emits.
#[derive(Debug, Clone, Copy, PartialEq, Eq)]
pub struct IncomingTransferEvent {
    pub emitter_chain: u16,
    pub emitter_address: [u8; 32],
    pub sequence: u64,
    pub amount: u64,
    pub asset: [u8; 32],
    pub commitment: [u8; 32],
    pub leaf_index: u64,
    pub timestamp: i64,
}

/// The net amount a message carries.
pub open spec fn payload_amount(p: Seq<u8>) -> u64 {
    u64_of_be(p.subrange(1, 9))
}

/// The asset a message names.
pub open spec fn payload_asset(p: Seq<u8>) -> Seq<u8> {
    p.subrange(9, 41)
}

/// The chain a message says it comes from.
pub open spec fn payload_source_chain(p: Seq<u8>) -> u16 {
    u16_of_be(p.subrange(41, 43))
}

/// The chain a message is meant for.
pub open spec fn payload_dest_chain(p: Seq<u8>) -> u16 {
    u16_of_be(p.subrange(43, 45))
}

/// The commitment a message carries.
pub open spec fn payload_commitment(p: Seq<u8>) -> Seq<u8> {
    p.subrange(77, 109)
}

/// Why an inbound message is refused, if it is, in the order checked.
pub open spec fn inbound_error(
    config: BridgeConfig,
    emitters: EmitterRegistry,
    processed: ProcessedMessages,
    tree: MerkleTree,
    emitter_chain: u16,
    emitter_address: [u8; 32],
    payload: Seq<u8>,
    digest: [u8; 32],
) -> Option<ErrorCode> {
    if config.paused {
        Some(ErrorCode::BridgePaused)
    } else if !emitters.trusts(emitter_chain, emitter_address) {
        Some(ErrorCode::InvalidExternalEmitter)
    } else if payload.len() < MIN_INBOUND_PAYLOAD_LEN || payload[0] != PAYLOAD_ID {
        Some(ErrorCode::InvalidWormholeMessage)
    } else if payload_source_chain(payload) != emitter_chain {
        Some(ErrorCode::InvalidWormholeMessage)
    } else if payload_dest_chain(payload) != config.local_chain_id {
        Some(ErrorCode::InvalidWormholeMessage)
    } else if processed.was_processed(digest) {
        Some(ErrorCode::TransferAlreadyProcessed)
    } else if tree.is_full_spec() {
        Some(ErrorCode::MerkleTreeFull)
    } else {
        None
    }
}

/// The outcome of processing an inbound message.
pub open spec fn inbound_result(
    config: BridgeConfig,
    emitters: EmitterRegistry,
    processed: ProcessedMessages,
    tree: MerkleTree,
    message: InboundMessage,
    digest: [u8; 32],
    timestamp: i64,
) -> Result<IncomingTransferEvent, ErrorCode> {
    match inbound_error(
        config,
        emitters,
        processed,
        tree,
        message.emitter_chain,
        message.emitter_address,
        message.payload@,
        digest,
    ) {
        Some(e) => Err(e),
        None => {
            let p = message.payload@;
            Ok(
                IncomingTransferEvent {
                    emitter_chain: message.emitter_chain,
                    emitter_address: message.emitter_address,
                    sequence: message.sequence,
                    amount: payload_amount(p),
                    asset: bytes_to_array(payload_asset(p)),
                    commitment: bytes_to_array(payload_commitment(p)),
                    leaf_index: tree.num_leaves,
                    timestamp,
                },
            )
        },
    }
}

/// The 32-byte value whose bytes are `b`.
pub open spec fn bytes_to_array(b: Seq<u8>) -> [u8; 32] {
    choose|a: [u8; 32]| a@ == b
}

/// How the replay markers and the accumulator relate before and after
/// processing with outcome `r`: untouched on failure.
pub open spec fn inbound_post(
    old_processed: ProcessedMessages,
    new_processed: ProcessedMessages,
    old_tree: MerkleTree,
    new_tree: MerkleTree,
    digest: [u8; 32],
    timestamp: i64,
    r: Result<IncomingTransferEvent, ErrorCode>,
) -> bool {
    match r {
        Err(_) => new_processed == old_processed && new_tree == old_tree,
        Ok(ev) => {
            &&& new_processed.records@ == old_processed.records@.push(
                ProcessedVaa { digest, timestamp },
            )
            &&& new_tree.leaves@ == old_tree.leaves@.push(ev.commitment)
            &&& new_tree.num_leaves == old_tree.num_leaves + 1
            &&& new_tree.root_history == old_tree.root_history
            &&& new_tree.root == old_tree.root
            &&& new_tree.max_depth == old_tree.max_depth
            &&& new_tree.authority == old_tree.authority
        },
    }
}

/// Processes an inbound message with digest `digest`: checks that a trusted
/// emitter sent it, that it is a bridge message for this chain and that it
/// was not processed before; then mirrors its commitment into the
/// accumulator and marks it processed. No funds move here: the commitment
/// is spent later through an ordinary withdrawal.
pub fn process_incoming_transfer(
    config: &BridgeConfig,
    emitters: &EmitterRegistry,
    processed: &mut ProcessedMessages,
    tree: &mut MerkleTree,
    message: &InboundMessage,
    digest: [u8; 32],
    timestamp: i64,
) -> (r: Result<IncomingTransferEvent, ErrorCode>)
    requires
        emitters.wf(),
        old(processed).wf(),
        old(tree).wf(),
    ensures
        final(processed).wf(),
        final(tree).wf(),
        r == inbound_result(*config, *emitters, *old(processed), *old(tree), *message, digest, timestamp),
        inbound_post(*old(processed), *final(processed), *old(tree), *final(tree), digest, timestamp, r),
{
    if config.paused {
        return Err(ErrorCode::BridgePaused);
    }
    if !emitters.is_trusted(message.emitter_chain, &message.emitter_address) {
        return Err(ErrorCode::InvalidExternalEmitter);
    }
    let payload = &message.payload;
    if payload.len() < MIN_INBOUND_PAYLOAD_LEN || payload[0] != PAYLOAD_ID {
        return Err(ErrorCode::InvalidWormholeMessage);
    }
    let amount = read_u64_be(payload, 1);
    let asset = read_bytes32(payload, 9);
    let source_chain = read_u16_be(payload, 41);
    let dest_chain = read_u16_be(payload, 43);
    let commitment = read_bytes32(payload, 77);
    if source_chain != message.emitter_chain {
        return Err(ErrorCode::InvalidWormholeMessage);
    }
    if dest_chain != config.local_chain_id {
        return Err(ErrorCode::InvalidWormholeMessage);
    }
    if processed.contains(&digest) {
        return Err(ErrorCode::TransferAlreadyProcessed);
    }
    let leaf_index = match tree.append(commitment) {
        Ok(i) => i,
        Err(_) => return Err(ErrorCode::MerkleTreeFull),
    };
    processed.records.push(ProcessedVaa { digest, timestamp });
    assert(processed.digests() =~= old(processed).digests().push(digest));
    proof {
        lemma_bytes_to_array(asset);
        lemma_bytes_to_array(commitment);
    }
    Ok(
        IncomingTransferEvent {
            emitter_chain: message.emitter_chain,
            emitter_address: message.emitter_address,
            sequence: message.sequence,
            amount,
            asset,
            commitment,
            leaf_index,
            timestamp,
        },
    )
}

/// A call of `process_incoming_transfer` with `digest` took the replay
/// markers from `pre` to `post` with outcome `r`, whatever its other
/// arguments were.
pub open spec fn inbound_step(
    pre: ProcessedMessages,
    post: ProcessedMessages,
    digest: [u8; 32],
    r: Result<IncomingTransferEvent, ErrorCode>,
) -> bool {
    exists|
        config: BridgeConfig,
        emitters: EmitterRegistry,
        tree: MerkleTree,
        tree_after: MerkleTree,
        message: InboundMessage,
        timestamp: i64,
    |
        r == inbound_result(config, emitters, pre, tree, message, digest, timestamp)
            && inbound_post(pre, post, tree, tree_after, digest, timestamp, r)
}

/// A processed digest stays processed along a run of inbound calls.
proof fn lemma_processed_persists(
    states: Seq<ProcessedMessages>,
    digests: Seq<[u8; 32]>,
    results: Seq<Result<IncomingTransferEvent, ErrorCode>>,
    d: [u8; 32],
    i: int,
    k: int,
)
    requires
        states.len() == digests.len() + 1,
        results.len() == digests.len(),
        forall|s: int|
            0 <= s < digests.len() ==> #[trigger] inbound_step(
                states[s],
                states[s + 1],
                digests[s],
                results[s],
            ),
        0 <= i <= k < states.len(),
        states[i].was_processed(d),
    ensures
        states[k].was_processed(d),
    decreases k - i,
{
    if k > i {
        lemma_processed_persists(states, digests, results, d, i, k - 1);
        let s = k - 1;
        assert(inbound_step(states[s], states[s + 1], digests[s], results[s]));
        let pre = states[s];
        let post = states[s + 1];
        if results[s] is Ok {
            let idx = choose|j: int| 0 <= j < pre.digests().len() && pre.digests()[j] == d;
            assert(post.digests()[idx] == d);
        }
    }
}

/// Once an inbound message was processed, every later call with the same
/// digest is refused, from the very next call on; it is refused as already
/// processed unless an earlier check refused it first.
pub proof fn lemma_replay_rejected(
    states: Seq<ProcessedMessages>,
    digests: Seq<[u8; 32]>,
    results: Seq<Result<IncomingTransferEvent, ErrorCode>>,
    i: int,
    j: int,
)
    requires
        states.len() == digests.len() + 1,
        results.len() == digests.len(),
        forall|s: int|
            0 <= s < digests.len() ==> #[trigger] inbound_step(
                states[s],
                states[s + 1],
                digests[s],
                results[s],
            ),
        0 <= i < j < digests.len(),
        digests[i] == digests[j],
        results[i] is Ok,
    ensures
        results[j] is Err,
        states[j].was_processed(digests[j]),
        forall|
            config: BridgeConfig,
            emitters: EmitterRegistry,
            tree: MerkleTree,
            message: InboundMessage,
            timestamp: i64,
        |
            #[trigger] inbound_result(config, emitters, states[j], tree, message, digests[j], timestamp)
                is Err,
        forall|
            config: BridgeConfig,
            emitters: EmitterRegistry,
            tree: MerkleTree,
            chain: u16,
            address: [u8; 32],
            payload: Seq<u8>,
        |
            {
                &&& !config.paused
                &&& emitters.trusts(chain, address)
                &&& payload.len() >= MIN_INBOUND_PAYLOAD_LEN
                &&& payload[0] == PAYLOAD_ID
                &&& payload_source_chain(payload) == chain
                &&& payload_dest_chain(payload) == config.local_chain_id
            } ==> #[trigger] inbound_error(
                config,
                emitters,
                states[j],
                tree,
                chain,
                address,
                payload,
                digests[j],
            ) == Some(ErrorCode::TransferAlreadyProcessed),
{
    let d = digests[i];
    assert(inbound_step(states[i], states[i + 1], digests[i], results[i]));
    let pre = states[i];
    let post = states[i + 1];
    let n = pre.digests().len();
    assert(post.digests()[n as int] == d);
    lemma_processed_persists(states, digests, results, d, i + 1, j);
    assert(inbound_step(states[j], states[j + 1], digests[j], results[j]));
}

/// An outbound transfer is accepted only with an amount within the token's
/// `[min_amount, max_amount]`; one outside is refused with `InvalidAmount`
/// when the earlier checks pass, and a refusal moves no funds.
pub proof fn lemma_outbound_amount_range(
    config: BridgeConfig,
    tree: MerkleTree,
    mint: [u8; 32],
    amount: u64,
    dest_chain_id: u16,
)
    ensures
        outbound_check(config, tree, mint, amount, dest_chain_id) matches Ok(t) ==> t.min_amount
            <= amount <= t.max_amount,
        !config.paused ==> (config.lookup(dest_chain_id, mint) matches Ok(t) ==> (t.enabled && (
        amount < t.min_amount || amount > t.max_amount) ==> outbound_check(
            config,
            tree,
            mint,
            amount,
            dest_chain_id,
        ) == Err::<TokenConfig, ErrorCode>(ErrorCode::InvalidAmount))),
{
}

/// An outbound message reads back as what was put in it: its tag, net
/// amount, asset, source and destination chains and commitment.
pub proof fn lemma_payload_round_trip(
    net_amount: u64,
    asset: [u8; 32],
    source_chain_id: u16,
    dest_chain_id: u16,
    dest_address: [u8; 32],
    commitment: [u8; 32],
    nonce: u32,
)
    ensures
        ({
            let p = outbound_payload(
                net_amount,
                asset,
                source_chain_id,
                dest_chain_id,
                dest_address,
                commitment,
                nonce,
            );
            &&& p.len() == PAYLOAD_LEN
            &&& p[0] == PAYLOAD_ID
            &&& payload_amount(p) == net_amount
            &&& payload_asset(p) == asset@
            &&& payload_source_chain(p) == source_chain_id
            &&& payload_dest_chain(p) == dest_chain_id
            &&& payload_commitment(p) == commitment@
        }),
{
    let p = outbound_payload(
        net_amount,
        asset,
        source_chain_id,
        dest_chain_id,
        dest_address,
        commitment,
        nonce,
    );
    assert(p.subrange(1, 9) =~= be_u64(net_amount));
    assert(p.subrange(9, 41) =~= asset@);
    assert(p.subrange(41, 43) =~= be_u16(source_chain_id));
    assert(p.subrange(43, 45) =~= be_u16(dest_chain_id));
    assert(p.subrange(77, 109) =~= commitment@);
    lemma_u64_be_round_trip(net_amount);
    lemma_u16_be_round_trip(source_chain_id);
    lemma_u16_be_round_trip(dest_chain_id);
}

/// A message that chain `source_chain_id` built for this chain, delivered
/// from a trusted emitter on that chain for the first time, is accepted
/// while the bridge runs and the accumulator has room, and it adds the
/// commitment and the net amount that were sent.
pub proof fn lemma_outbound_accepted_inbound(
    config: BridgeConfig,
    emitters: EmitterRegistry,
    processed: ProcessedMessages,
    tree: MerkleTree,
    emitter_address: [u8; 32],
    sequence: u64,
    net_amount: u64,
    asset: [u8; 32],
    source_chain_id: u16,
    dest_address: [u8; 32],
    commitment: [u8; 32],
    nonce: u32,
    payload: Vec<u8>,
    digest: [u8; 32],
    timestamp: i64,
)
    requires
        payload@ == outbound_payload(
            net_amount,
            asset,
            source_chain_id,
            config.local_chain_id,
            dest_address,
            commitment,
            nonce,
        ),
        !config.paused,
        emitters.trusts(source_chain_id, emitter_address),
        !processed.was_processed(digest),
        !tree.is_full_spec(),
    ensures
        ({
            let message = InboundMessage {
                emitter_chain: source_chain_id,
                emitter_address,
                sequence,
                payload,
            };
            let r = inbound_result(config, emitters, processed, tree, message, digest, timestamp);
            &&& r is Ok
            &&& r->Ok_0.amount == net_amount
            &&& r->Ok_0.asset == asset
            &&& r->Ok_0.commitment == commitment
            &&& r->Ok_0.leaf_index == tree.num_leaves
        }),
{
    lemma_payload_round_trip(
        net_amount,
        asset,
        source_chain_id,
        config.local_chain_id,
        dest_address,
        commitment,
        nonce,
    );
    lemma_bytes_to_array(asset);
    lemma_bytes_to_array(commitment);
}

/// A 32-byte value is the one its bytes name.
pub proof fn lemma_bytes_to_array(a: [u8; 32])
    ensures
        bytes_to_array(a@) == a,
{
    let b = bytes_to_array(a@);
    assert(b@ == a@);
    assert(b =~= a);
}

} // verus!
