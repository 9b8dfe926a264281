//! Trusted emitters of other chains, keyed by (chain id, emitter address).
use vstd::prelude::*;
use crate::bridge::{lemma_index_of_unique, BridgeConfig};
use crate::bytes::bytes32_eq;
use crate::errors::ErrorCode;

verus! {

/// A bridge contract on another chain whose messages may be trusted.
#[derive(Debug, Clone, Copy, PartialEq, Eq)]
pub struct ExternalBridgeEmitter {
    pub chain_id: u16,
    pub emitter_address: [u8; 32],
    pub is_active: bool,
    pub last_updated_timestamp: i64,
}

/// The registered emitters, at most one per key.
pub struct EmitterRegistry {
    pub emitters: Vec<ExternalBridgeEmitter>,
}

/// The registry key of an emitter record.
pub open spec fn emitter_key(e: ExternalBridgeEmitter) -> (u16, [u8; 32]) {
    (e.chain_id, e.emitter_address)
}

impl EmitterRegistry {
    pub open spec fn keys(&self) -> Seq<(u16, [u8; 32])> {
        self.emitters@.map_values(|e: ExternalBridgeEmitter| emitter_key(e))
    }

    pub open spec fn wf(&self) -> bool {
        self.keys().no_duplicates()
    }

    pub open spec fn is_registered(&self, chain_id: u16, address: [u8; 32]) -> bool {
        self.keys().contains((chain_id, address))
    }

    /// The record under a key; meaningful when it is registered.
    pub open spec fn get(&self, chain_id: u16, address: [u8; 32]) -> ExternalBridgeEmitter {
        self.emitters@[self.keys().index_of((chain_id, address))]
    }

    /// Whether messages of this emitter are accepted.
    pub open spec fn trusts(&self, chain_id: u16, address: [u8; 32]) -> bool {
        self.is_registered(chain_id, address) && self.get(chain_id, address).is_active
    }

    pub fn new() -> (r: EmitterRegistry)
        ensures
            r.wf(),
            r.emitters@.len() == 0,
    {
        EmitterRegistry { emitters: Vec::new() }
    }

    /// Where the record under a key stands.
    pub fn find(&self, chain_id: u16, address: &[u8; 32]) -> (r: Option<usize>)
        requires
            self.wf(),
        ensures
            r is None <==> !self.is_registered(chain_id, *address),
            r matches Some(i) ==> i < self.emitters@.len() && i == self.keys().index_of(
                (chain_id, *address),
            ),
    {
        let mut i: usize = 0;
        while i < self.emitters.len()
            invariant
                0 <= i <= self.emitters@.len(),
                self.wf(),
                forall|j: int| 0 <= j < i ==> self.keys()[j] != (chain_id, *address),
            decreases self.emitters@.len() - i,
        {
            let e = &self.emitters[i];
            if e.chain_id == chain_id && bytes32_eq(&e.emitter_address, address) {
                assert(self.keys()[i as int] == (chain_id, *address));
                proof {
                    lemma_index_of_unique(self.keys(), i as int);
                }
                return Some(i);
            }
            i += 1;
        }
        None
    }

    /// Whether messages of this emitter are accepted.
    pub fn is_trusted(&self, chain_id: u16, address: &[u8; 32]) -> (r: bool)
        requires
            self.wf(),
        ensures
            r == self.trusts(chain_id, *address),
    {
        match self.find(chain_id, address) {
            Some(i) => self.emitters[i].is_active,
            None => false,
        }
    }

    /// Stores `record` under its key, replacing the record there if any.
    fn put(&mut self, record: ExternalBridgeEmitter)
        requires
            old(self).wf(),
        ensures
            final(self).wf(),
            upserted(*old(self), *final(self), record),
    {
        let ghost k = emitter_key(record);
        match self.find(record.chain_id, &record.emitter_address) {
            Some(i) => {
                let ghost before = self.keys();
                self.emitters[i] = record;
                assert(self.keys() =~= before);
                assert(self.get(record.chain_id, record.emitter_address) == record);
                proof {
                    assert forall|c: u16, a: [u8; 32]|
                        #![trigger self.get(c, a)]
                        old(self).is_registered(c, a) && (c, a) != k implies self.get(c, a)
                        == old(self).get(c, a) by {
                        let j = before.index_of((c, a));
                        assert(before[j] == (c, a));
                    }
                }
            },
            None => {
                let ghost before = self.keys();
                self.emitters.push(record);
                assert(self.keys() =~= before.push(k));
                proof {
                    let n = before.len() as int;
                    assert(self.keys()[n] == k);
                    assert(self.keys().no_duplicates());
                    lemma_index_of_unique(self.keys(), n);
                    assert forall|c: u16, a: [u8; 32]|
                        self.is_registered(c, a) <==> old(self).is_registered(c, a) || (c, a)
                            == k by {
                        if old(self).is_registered(c, a) {
                            let j = before.index_of((c, a));
                            assert(self.keys()[j] == (c, a));
                        }
                        if self.is_registered(c, a) && (c, a) != k {
                            let j = self.keys().index_of((c, a));
                            assert(before[j] == (c, a));
                        }
                    }
                    assert forall|c: u16, a: [u8; 32]|
                        #![trigger self.get(c, a)]
                        old(self).is_registered(c, a) && (c, a) != k implies self.get(c, a)
                        == old(self).get(c, a) by {
                        let j = before.index_of((c, a));
                        assert(before[j] == (c, a));
                        assert(self.keys()[j] == (c, a));
                        lemma_index_of_unique(self.keys(), j);
                    }
                }
            },
        }
    }
}

/// `new` is `old` with `record` stored under its key and every other record
/// kept.
pub open spec fn upserted(
    old: EmitterRegistry,
    new: EmitterRegistry,
    record: ExternalBridgeEmitter,
) -> bool {
    &&& new.is_registered(record.chain_id, record.emitter_address)
    &&& new.get(record.chain_id, record.emitter_address) == record
    &&& forall|c: u16, a: [u8; 32]|
        new.is_registered(c, a) <==> old.is_registered(c, a) || (c, a) == emitter_key(record)
    &&& forall|c: u16, a: [u8; 32]|
        #![trigger new.get(c, a)]
        old.is_registered(c, a) && (c, a) != emitter_key(record) ==> new.get(c, a) == old.get(
            c,
            a,
        )
}

/// Trusts the emitter at `emitter_address` on chain `chain_id` from now on,
/// registering it if needed. Only the bridge's authority may do so.
pub fn register_external_emitter(
    registry: &mut EmitterRegistry,
    config: &BridgeConfig,
    caller: &[u8; 32],
    chain_id: u16,
    emitter_address: [u8; 32],
    timestamp: i64,
) -> (r: Result<(), ErrorCode>)
    requires
        old(registry).wf(),
    ensures
        final(registry).wf(),
        *caller != config.authority <==> r is Err,
        r is Err ==> r == Err::<(), ErrorCode>(ErrorCode::Unauthorized) && *final(registry)
            == *old(registry),
        r is Ok ==> upserted(
            *old(registry),
            *final(registry),
            ExternalBridgeEmitter {
                chain_id,
                emitter_address,
                is_active: true,
                last_updated_timestamp: timestamp,
            },
        ),
{
    if !bytes32_eq(caller, &config.authority) {
        return Err(ErrorCode::Unauthorized);
    }
    registry.put(
        ExternalBridgeEmitter {
            chain_id,
            emitter_address,
            is_active: true,
            last_updated_timestamp: timestamp,
        },
    );
    Ok(())
}

/// Why switching an emitter on or off is refused, if it is.
pub open spec fn set_emitter_error(
    registry: EmitterRegistry,
    config: BridgeConfig,
    caller: [u8; 32],
    chain_id: u16,
    emitter_address: [u8; 32],
) -> Option<ErrorCode> {
    if caller != config.authority {
        Some(ErrorCode::Unauthorized)
    } else if !registry.is_registered(chain_id, emitter_address) {
        Some(ErrorCode::InvalidExternalEmitter)
    } else {
        None
    }
}

/// Trusts or distrusts a registered emitter. Only the bridge's authority
/// may do so.
pub fn set_emitter_active(
    registry: &mut EmitterRegistry,
    config: &BridgeConfig,
    caller: &[u8; 32],
    chain_id: u16,
    emitter_address: [u8; 32],
    is_active: bool,
    timestamp: i64,
) -> (r: Result<(), ErrorCode>)
    requires
        old(registry).wf(),
    ensures
        final(registry).wf(),
        set_emitter_error(*old(registry), *config, *caller, chain_id, emitter_address) matches Some(
            e,
        ) ==> r == Err::<(), ErrorCode>(e) && *final(registry) == *old(registry),
        set_emitter_error(*old(registry), *config, *caller, chain_id, emitter_address) is None
            ==> r is Ok && upserted(
            *old(registry),
            *final(registry),
            ExternalBridgeEmitter {
                chain_id,
                emitter_address,
                is_active,
                last_updated_timestamp: timestamp,
            },
        ),
{
    if !bytes32_eq(caller, &config.authority) {
        return Err(ErrorCode::Unauthorized);
    }
    if registry.find(chain_id, &emitter_address).is_none() {
        return Err(ErrorCode::InvalidExternalEmitter);
    }
    registry.put(
        ExternalBridgeEmitter {
            chain_id,
            emitter_address,
            is_active,
            last_updated_timestamp: timestamp,
        },
    );
    Ok(())
}

} // verus!
