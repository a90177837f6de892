use vstd::prelude::*;

use crate::address::Address;
use crate::table::Table;
use crate::token::address_view;

verus! {

/// The name of what `ed25519_dalek`'s strict verification answers: whether
/// `signature` is a valid Ed25519 signature of `message` under `public_key`
/// (a key that does not decode to a curve point verifies nothing).
pub uninterp spec fn ed25519_strict_verifies(public_key: Seq<u8>, message: Seq<u8>, signature: Seq<u8>) -> bool;

/// Strict Ed25519 verification through `ed25519_dalek`: decodes the key with
/// `VerifyingKey::from_bytes` and checks the signature with
/// `VerifyingKey::verify_strict` (the check the Soroban host runs for
/// `ed25519_verify`). Trusted: the answer is named by
/// [`ed25519_strict_verifies`] of the key, the message and the signature,
/// and nothing more is claimed of it.
#[verifier::external_body]
fn ed25519_verify(public_key: &[u8; 32], message: &[u8], signature: &[u8; 64]) -> (ok: bool)
    ensures
        ok == ed25519_strict_verifies(public_key@, message@, signature@),
{
    match ed25519_dalek::VerifyingKey::from_bytes(public_key) {
        Ok(key) => key.verify_strict(message, &ed25519_dalek::Signature::from_bytes(signature)).is_ok(),
        Err(_) => false,
    }
}

/// The KYC tier of a user.
#[derive(Debug, Clone, Copy, PartialEq, Eq, Structural)]
pub enum KycTier {
    Basic,
    Pro,
}

impl KycTier {
    /// The tier's number (Basic is 1, Pro is 2).
    pub fn code(&self) -> (r: u32)
        ensures
            r == (match self {
                KycTier::Basic => 1u32,
                KycTier::Pro => 2u32,
            }),
    {
        match self {
            KycTier::Basic => 1,
            KycTier::Pro => 2,
        }
    }
}

/// What is recorded for a verified user.
#[derive(Debug, Clone, Copy, PartialEq, Eq, Structural)]
pub struct KycData {
    pub tier: KycTier,
    pub expires_at: u64,
    pub verifier_version: u32,
}

/// Why a KYC operation was refused. A refusal leaves the state as it was.
#[derive(Debug, Clone, Copy, PartialEq, Eq, Structural)]
pub enum KycError {
    /// `initialize` on a verifier that already has an administrator.
    AlreadyInitialized,
    /// An operation that needs the administrator, the verifier key or the
    /// verifier version before `initialize`.
    NotInitialized,
    /// A proof whose expiry is not after the current ledger time.
    ProofExpired,
    /// A signature that does not verify under the verifier key.
    InvalidSignature,
    /// A batch whose lists differ in length.
    LengthMismatch,
    /// The verifier version would leave the range of `u32`.
    Overflow,
}

/// The spending limit of a tier: 1,000 units for Basic and 100,000 for Pro,
/// in a currency with seven decimals.
pub open spec fn tier_limit(tier: KycTier) -> u128 {
    match tier {
        KycTier::Basic => 1_000_000_000,
        KycTier::Pro => 100_000_000_000,
    }
}

/// The `n` low-order bytes of `x`, most significant first.
pub open spec fn be_bytes(x: nat, n: nat) -> Seq<u8>
    decreases n,
{
    if n == 0 {
        Seq::empty()
    } else {
        be_bytes(x / 256, (n - 1) as nat).push((x % 256) as u8)
    }
}

/// The message that the verifier signs for a user: the user's encoded
/// address followed by the expiry as a 16-byte big-endian integer.
pub open spec fn kyc_message(user: Seq<u8>, expires_at: u64) -> Seq<u8> {
    user + be_bytes(expires_at as nat, 16)
}

/// The stored state of the KYC verifier.
#[verifier::ext_equal]
pub struct KycState {
    pub admin: Option<Seq<u8>>,
    pub verifier_pubkey: Option<Seq<u8>>,
    pub verifier_version: Option<u32>,
    pub user_kyc: Map<Seq<u8>, KycData>,
}

impl KycState {
    /// The state before `initialize`: nothing is stored.
    pub open spec fn empty() -> KycState {
        KycState { admin: None, verifier_pubkey: None, verifier_version: None, user_kyc: Map::empty() }
    }

    /// Every recorded proof was made under the current verifier version or
    /// an earlier one.
    pub open spec fn consistent(self) -> bool {
        &&& forall|u: Seq<u8>| #[trigger]
            self.user_kyc.contains_key(u) ==> (self.verifier_version matches Some(v)
                && self.user_kyc[u].verifier_version <= v)
        &&& self.admin is None ==> self.verifier_pubkey is None && self.verifier_version is None
    }

    /// `initialize`: refused when an administrator is set; otherwise records
    /// the administrator, the verifier key and verifier version 1.
    pub open spec fn initialize(self, admin: Seq<u8>, verifier_pubkey: Seq<u8>) -> (KycState, Result<(), KycError>) {
        if self.admin is Some {
            (self, Err(KycError::AlreadyInitialized))
        } else {
            (
                KycState {
                    admin: Some(admin),
                    verifier_pubkey: Some(verifier_pubkey),
                    verifier_version: Some(1),
                    ..self
                },
                Ok(()),
            )
        }
    }

    /// Whether `signature` is the verifier's signature of [`kyc_message`] for
    /// `user` and `expires_at` (false while no verifier key is set).
    pub open spec fn signature_verifies(self, user: Seq<u8>, signature: Seq<u8>, expires_at: u64) -> bool {
        match self.verifier_pubkey {
            Some(pk) => ed25519_strict_verifies(pk, kyc_message(user, expires_at), signature),
            None => false,
        }
    }

    /// Recording one proof once its signature has been checked, with
    /// `signature_valid` the answer: the proof must expire after `now`, a
    /// verifier key must be set and the signature must have verified; the
    /// user's tier and expiry are then recorded under the current verifier
    /// version.
    pub open spec fn record_proof(
        self,
        user: Seq<u8>,
        tier: KycTier,
        expires_at: u64,
        now: u64,
        signature_valid: bool,
    ) -> (KycState, Result<(), KycError>) {
        if expires_at <= now {
            (self, Err(KycError::ProofExpired))
        } else if self.verifier_pubkey is None {
            (self, Err(KycError::NotInitialized))
        } else if !signature_valid {
            (self, Err(KycError::InvalidSignature))
        } else {
            match self.verifier_version {
                None => (self, Err(KycError::NotInitialized)),
                Some(v) => (
                    KycState {
                        user_kyc: self.user_kyc.insert(
                            user,
                            KycData { tier, expires_at, verifier_version: v },
                        ),
                        ..self
                    },
                    Ok(()),
                ),
            }
        }
    }

    /// Recording one signed proof: it must expire after `now`, and the
    /// signature must verify under the verifier key over [`kyc_message`];
    /// the user's tier and expiry are then recorded under the current
    /// verifier version.
    pub open spec fn set_kyc_status(
        self,
        user: Seq<u8>,
        tier: KycTier,
        signature: Seq<u8>,
        expires_at: u64,
        now: u64,
    ) -> (KycState, Result<(), KycError>) {
        self.record_proof(user, tier, expires_at, now, self.signature_verifies(user, signature, expires_at))
    }

    /// `batch_set_kyc_status`: needs an administrator and lists of equal
    /// length; records one proof per item, in order, and is refused as a
    /// whole when any item is.
    pub open spec fn batch_set_kyc_status(
        self,
        users: Seq<Seq<u8>>,
        tiers: Seq<KycTier>,
        signatures: Seq<Seq<u8>>,
        expires_at: Seq<u64>,
        now: u64,
    ) -> (KycState, Result<(), KycError>) {
        if self.admin is None {
            (self, Err(KycError::NotInitialized))
        } else if !(users.len() == tiers.len() && users.len() == signatures.len() && users.len()
            == expires_at.len()) {
            (self, Err(KycError::LengthMismatch))
        } else {
            match kyc_batch_prefix(self, users, tiers, signatures, expires_at, now, users.len()) {
                Ok(t) => (t, Ok(())),
                Err(e) => (self, Err(e)),
            }
        }
    }

    /// Whether `user` holds a valid KYC at time `now`: its proof has not
    /// expired and was recorded under the current verifier version.
    pub open spec fn is_kyc_valid(self, user: Seq<u8>, now: u64) -> Result<bool, KycError> {
        match self.verifier_version {
            None => Err(KycError::NotInitialized),
            Some(v) => Ok(
                self.user_kyc.contains_key(user) && self.user_kyc[user].expires_at > now
                    && self.user_kyc[user].verifier_version == v,
            ),
        }
    }

    /// `update_verifier`: the administrator installs a new verifier key and
    /// moves to the next verifier version, which invalidates every proof
    /// recorded before.
    pub open spec fn update_verifier(self, new_pubkey: Seq<u8>) -> (KycState, Result<(), KycError>) {
        let v = match self.verifier_version {
            Some(v) => v,
            None => 1u32,
        };
        if self.admin is None {
            (self, Err(KycError::NotInitialized))
        } else if v + 1 > u32::MAX {
            (self, Err(KycError::Overflow))
        } else {
            (
                KycState {
                    verifier_pubkey: Some(new_pubkey),
                    verifier_version: Some((v + 1) as u32),
                    ..self
                },
                Ok(()),
            )
        }
    }
}

/// Records the first `n` proofs of a batch, in order.
pub open spec fn kyc_batch_prefix(
    s: KycState,
    users: Seq<Seq<u8>>,
    tiers: Seq<KycTier>,
    signatures: Seq<Seq<u8>>,
    expires_at: Seq<u64>,
    now: u64,
    n: nat,
) -> Result<KycState, KycError>
    decreases n,
{
    if n == 0 {
        Ok(s)
    } else {
        match kyc_batch_prefix(s, users, tiers, signatures, expires_at, now, (n - 1) as nat) {
            Ok(t) => {
                let (u, r) = t.set_kyc_status(
                    users[n - 1],
                    tiers[n - 1],
                    signatures[n - 1],
                    expires_at[n - 1],
                    now,
                );
                match r {
                    Ok(()) => Ok(u),
                    Err(e) => Err(e),
                }
            },
            Err(e) => Err(e),
        }
    }
}

proof fn lemma_kyc_batch_refusal_sticks(
    s: KycState,
    users: Seq<Seq<u8>>,
    tiers: Seq<KycTier>,
    signatures: Seq<Seq<u8>>,
    expires_at: Seq<u64>,
    now: u64,
    k: nat,
    n: nat,
)
    requires
        k <= n,
        kyc_batch_prefix(s, users, tiers, signatures, expires_at, now, k) is Err,
    ensures
        kyc_batch_prefix(s, users, tiers, signatures, expires_at, now, n) == kyc_batch_prefix(
            s,
            users,
            tiers,
            signatures,
            expires_at,
            now,
            k,
        ),
    decreases n,
{
    if n > k {
        lemma_kyc_batch_refusal_sticks(s, users, tiers, signatures, expires_at, now, k, (n - 1) as nat);
    }
}

/// Appends the `n` low-order bytes of `x`, most significant first.
fn push_be_bytes(out: &mut Vec<u8>, x: u128, n: usize)
    ensures
        final(out)@ == old(out)@ + be_bytes(x as nat, n as nat),
    decreases n,
{
    if n > 0 {
        push_be_bytes(out, x / 256, n - 1);
        let ghost mid = out@;
        out.push((x % 256) as u8);
        assert(out@ =~= old(out)@ + be_bytes(x as nat, n as nat));
    } else {
        assert(out@ =~= old(out)@ + be_bytes(x as nat, n as nat));
    }
}

/// The message that the verifier signs for `user` and `expires_at`.
pub fn kyc_message_bytes(user: &Address, expires_at: u64) -> (m: Vec<u8>)
    ensures
        m@ == kyc_message(user@, expires_at),
{
    let bytes = user.as_bytes();
    let mut out: Vec<u8> = Vec::new();
    let n = bytes.len();
    let mut i: usize = 0;
    while i < n
        invariant
            n == bytes@.len(),
            bytes@ == user@,
            i <= n,
            out@ =~= bytes@.take(i as int),
        decreases n - i,
    {
        out.push(bytes[i]);
        i = i + 1;
    }
    assert(out@ =~= user@);
    push_be_bytes(&mut out, expires_at as u128, 16);
    out
}

/// The spending limit of `tier`.
pub fn get_tier_limit(tier: KycTier) -> (r: u128)
    ensures
        r == tier_limit(tier),
{
    match tier {
        KycTier::Basic => 1_000_000_000,
        KycTier::Pro => 100_000_000_000,
    }
}

/// A KYC registry: an off-chain verifier signs each user's tier and expiry,
/// and the contract records signed proofs. The value holds the contract's
/// storage; the ledger time `now` comes from the environment, and who signed
/// a call is checked around these methods (`initialize` needs the new
/// administrator, the batch and `update_verifier` the stored administrator).
pub struct KycVerifier {
    admin: Option<Address>,
    verifier_pubkey: Option<[u8; 32]>,
    verifier_version: Option<u32>,
    user_kyc: Table<Address, KycData>,
}

/// The encodings of a list of addresses.
pub open spec fn addresses_view(v: Seq<Address>) -> Seq<Seq<u8>> {
    v.map_values(|a: Address| a@)
}

/// The bytes of a list of signatures.
pub open spec fn signatures_view(v: Seq<[u8; 64]>) -> Seq<Seq<u8>> {
    v.map_values(|s: [u8; 64]| s@)
}

/// The bytes of an optional key.
pub open spec fn key_view(k: Option<[u8; 32]>) -> Option<Seq<u8>> {
    match k {
        Some(x) => Some(x@),
        None => None,
    }
}

impl View for KycVerifier {
    type V = KycState;

    closed spec fn view(&self) -> KycState {
        KycState {
            admin: address_view(self.admin),
            verifier_pubkey: key_view(self.verifier_pubkey),
            verifier_version: self.verifier_version,
            user_kyc: self.user_kyc.map(),
        }
    }
}

impl KycVerifier {
    /// Well-formedness: the table of proofs is well formed and the stored
    /// state is consistent (see [`KycState::consistent`]).
    pub closed spec fn wf(&self) -> bool {
        self.user_kyc.wf() && self@.consistent()
    }

    /// Every well-formed verifier holds a consistent state.
    pub proof fn wf_is_consistent(&self)
        requires
            self.wf(),
        ensures
            self@.consistent(),
    {
    }

    /// Rebuilds a verifier from its stored parts; answers `None` exactly when
    /// the parts are not consistent (see [`KycState::consistent`]).
    pub fn from_parts(
        admin: Option<Address>,
        verifier_pubkey: Option<[u8; 32]>,
        verifier_version: Option<u32>,
        user_kyc: Table<Address, KycData>,
    ) -> (r: Option<KycVerifier>)
        requires
            user_kyc.wf(),
        ensures
            ({
                let s = KycState {
                    admin: address_view(admin),
                    verifier_pubkey: key_view(verifier_pubkey),
                    verifier_version,
                    user_kyc: user_kyc.map(),
                };
                match r {
                    Some(c) => c.wf() && c@ == s,
                    None => !s.consistent(),
                }
            }),
    {
        let no_admin = match &admin {
            Some(_) => false,
            None => true,
        };
        if no_admin && (verifier_pubkey.is_some() || verifier_version.is_some()) {
            return None;
        }
        let n = user_kyc.len();
        let mut i: usize = 0;
        while i < n
            invariant
                n == user_kyc.pairs().len(),
                i <= n,
                user_kyc.wf(),
                forall|j: int|
                    0 <= j < i ==> (verifier_version matches Some(v) && #[trigger] user_kyc.pairs()[j].1.verifier_version
                        <= v),
            decreases n - i,
        {
            proof {
                user_kyc.lemma_entry(i as int);
            }
            let recorded = user_kyc.value_at(i).verifier_version;
            match verifier_version {
                Some(v) => {
                    if recorded > v {
                        return None;
                    }
                },
                None => {
                    return None;
                },
            }
            i = i + 1;
        }
        proof {
            assert forall|u: Seq<u8>| #[trigger] user_kyc.map().contains_key(u) implies (
            verifier_version matches Some(v) && user_kyc.map()[u].verifier_version <= v) by {
                user_kyc.lemma_key_has_entry(u);
                let j = choose|j: int| 0 <= j < user_kyc.pairs().len() && user_kyc.pairs()[j].0 == u;
                user_kyc.lemma_entry(j);
                assert(verifier_version matches Some(v) && user_kyc.pairs()[j].1.verifier_version <= v);
            }
        }
        let c = KycVerifier { admin, verifier_pubkey, verifier_version, user_kyc };
        assert(c@.consistent());
        Some(c)
    }

    /// The stored verifier key, if any.
    pub fn stored_pubkey(&self) -> (r: Option<[u8; 32]>)
        ensures
            key_view(r) == self@.verifier_pubkey,
    {
        self.verifier_pubkey
    }

    /// The stored verifier version, if any.
    pub fn stored_version(&self) -> (r: Option<u32>)
        ensures
            r == self@.verifier_version,
    {
        self.verifier_version
    }

    /// The table of recorded proofs.
    pub fn records_table(&self) -> (t: &Table<Address, KycData>)
        requires
            self.wf(),
        ensures
            t.wf(),
            t.map() == self@.user_kyc,
    {
        &self.user_kyc
    }

    /// A verifier with empty storage.
    pub fn new() -> (r: KycVerifier)
        ensures
            r.wf(),
            r@ == KycState::empty(),
    {
        let r = KycVerifier {
            admin: None,
            verifier_pubkey: None,
            verifier_version: None,
            user_kyc: Table::new(),
        };
        assert(r@ =~= KycState::empty());
        r
    }

    /// The administrator, once set.
    pub fn admin(&self) -> (r: Option<&Address>)
        ensures
            match r {
                Some(a) => self@.admin == Some(a@),
                None => self@.admin is None,
            },
    {
        match &self.admin {
            Some(a) => Some(a),
            None => None,
        }
    }

    /// Records the administrator and the verifier key, at version 1.
    pub fn initialize(&mut self, admin: Address, verifier_pubkey: [u8; 32]) -> (r: Result<(), KycError>)
        requires
            old(self).wf(),
        ensures
            final(self).wf(),
            final(self)@ == old(self)@.initialize(admin@, verifier_pubkey@).0,
            r == old(self)@.initialize(admin@, verifier_pubkey@).1,
    {
        if self.admin.is_some() {
            return Err(KycError::AlreadyInitialized);
        }
        proof {
            key_changes_keep_consistency(self@, admin@, verifier_pubkey@);
        }
        let ghost post = self@.initialize(admin@, verifier_pubkey@).0;
        self.admin = Some(admin);
        self.verifier_pubkey = Some(verifier_pubkey);
        self.verifier_version = Some(1);
        assert(self@ =~= post);
        Ok(())
    }

    /// Records one signed proof for `user` at ledger time `now`.
    pub fn set_kyc_status(
        &mut self,
        user: &Address,
        tier: KycTier,
        signature: &[u8; 64],
        expires_at: u64,
        now: u64,
    ) -> (r: Result<(), KycError>)
        requires
            old(self).wf(),
        ensures
            final(self).wf(),
            final(self)@ == old(self)@.set_kyc_status(user@, tier, signature@, expires_at, now).0,
            r == old(self)@.set_kyc_status(user@, tier, signature@, expires_at, now).1,
    {
        if expires_at <= now {
            return Err(KycError::ProofExpired);
        }
        let message = kyc_message_bytes(user, expires_at);
        let valid = match &self.verifier_pubkey {
            Some(pubkey) => ed25519_verify(pubkey, message.as_slice(), signature),
            None => false,
        };
        self.record_kyc_proof(user, tier, expires_at, now, valid)
    }

    /// Records one proof for `user` at ledger time `now`, once its signature
    /// has been checked; `signature_valid` is the answer of that check.
    pub fn record_kyc_proof(
        &mut self,
        user: &Address,
        tier: KycTier,
        expires_at: u64,
        now: u64,
        signature_valid: bool,
    ) -> (r: Result<(), KycError>)
        requires
            old(self).wf(),
        ensures
            final(self).wf(),
            final(self)@ == old(self)@.record_proof(user@, tier, expires_at, now, signature_valid).0,
            r == old(self)@.record_proof(user@, tier, expires_at, now, signature_valid).1,
    {
        proof {
            record_proof_keeps_consistency(self@, user@, tier, expires_at, now, signature_valid);
        }
        let ghost post = self@.record_proof(user@, tier, expires_at, now, signature_valid).0;
        if expires_at <= now {
            return Err(KycError::ProofExpired);
        }
        if self.verifier_pubkey.is_none() {
            return Err(KycError::NotInitialized);
        }
        if !signature_valid {
            return Err(KycError::InvalidSignature);
        }
        let version = match self.verifier_version {
            Some(v) => v,
            None => {
                return Err(KycError::NotInitialized);
            },
        };
        self.user_kyc.insert(user.duplicate(), KycData { tier, expires_at, verifier_version: version });
        assert(self@ =~= post);
        Ok(())
    }

    /// Records one signed proof per item, in order; refused as a whole when
    /// any item is refused.
    pub fn batch_set_kyc_status(
        &mut self,
        users: &Vec<Address>,
        tiers: &Vec<KycTier>,
        signatures: &Vec<[u8; 64]>,
        expires_at: &Vec<u64>,
        now: u64,
    ) -> (r: Result<(), KycError>)
        requires
            old(self).wf(),
        ensures
            final(self).wf(),
            final(self)@ == old(self)@.batch_set_kyc_status(
                addresses_view(users@),
                tiers@,
                signatures_view(signatures@),
                expires_at@,
                now,
            ).0,
            r == old(self)@.batch_set_kyc_status(
                addresses_view(users@),
                tiers@,
                signatures_view(signatures@),
                expires_at@,
                now,
            ).1,
    {
        let ghost us = addresses_view(users@);
        let ghost sigs = signatures_view(signatures@);
        let ghost start = self@;
        if self.admin.is_none() {
            return Err(KycError::NotInitialized);
        }
        let n = users.len();
        if !(n == tiers.len() && n == signatures.len() && n == expires_at.len()) {
            return Err(KycError::LengthMismatch);
        }
        proof {
            batch_keeps_consistency(start, us, tiers@, sigs, expires_at@, now);
        }
        let saved = self.user_kyc.duplicate();
        let mut i: usize = 0;
        while i < n
            invariant
                n == users@.len(),
                n == tiers@.len(),
                n == signatures@.len(),
                n == expires_at@.len(),
                us == addresses_view(users@),
                sigs == signatures_view(signatures@),
                start == old(self)@,
                i <= n,
                self.wf(),
                saved.wf(),
                saved.map() == start.user_kyc,
                self@.admin == start.admin,
                start.admin is Some,
                start.consistent(),
                self@.verifier_pubkey == start.verifier_pubkey,
                self@.verifier_version == start.verifier_version,
                kyc_batch_prefix(start, us, tiers@, sigs, expires_at@, now, i as nat) == Ok::<
                    KycState,
                    KycError,
                >(self@),
            decreases n - i,
        {
            assert(us[i as int] == users@[i as int]@);
            assert(sigs[i as int] == signatures@[i as int]@);
            let r = self.set_kyc_status(&users[i], tiers[i], &signatures[i], expires_at[i], now);
            match r {
                Ok(()) => {},
                Err(e) => {
                    proof {
                        assert(us.len() == n);

                        lemma_kyc_batch_refusal_sticks(
                            start,
                            us,
                            tiers@,
                            sigs,
                            expires_at@,
                            now,
                            (i + 1) as nat,
                            n as nat,
                        );
                    }
                    self.user_kyc = saved;
                    assert(self@ =~= start);

                    return Err(e);
                },
            }
            i = i + 1;
        }
        assert(us.len() == n);
        Ok(())
    }

    /// Whether `user` holds a valid KYC at ledger time `now`.
    pub fn is_kyc_valid(&self, user: &Address, now: u64) -> (r: Result<bool, KycError>)
        requires
            self.wf(),
        ensures
            r == self@.is_kyc_valid(user@, now),
    {
        let current = match self.verifier_version {
            Some(v) => v,
            None => {
                return Err(KycError::NotInitialized);
            },
        };
        match self.user_kyc.get(user) {
            Some(data) => Ok(data.expires_at > now && data.verifier_version == current),
            None => Ok(false),
        }
    }

    /// Installs a new verifier key and moves to the next verifier version.
    pub fn update_verifier(&mut self, new_pubkey: [u8; 32]) -> (r: Result<(), KycError>)
        requires
            old(self).wf(),
        ensures
            final(self).wf(),
            final(self)@ == old(self)@.update_verifier(new_pubkey@).0,
            r == old(self)@.update_verifier(new_pubkey@).1,
    {
        if self.admin.is_none() {
            return Err(KycError::NotInitialized);
        }
        let v = match self.verifier_version {
            Some(v) => v,
            None => 1,
        };
        if v == u32::MAX {
            return Err(KycError::Overflow);
        }
        proof {
            key_changes_keep_consistency(self@, self@.admin->Some_0, new_pubkey@);
        }
        let ghost post = self@.update_verifier(new_pubkey@).0;
        self.verifier_pubkey = Some(new_pubkey);
        self.verifier_version = Some(v + 1);
        assert(self@ =~= post);
        Ok(())
    }
}

/// Recording a proof keeps the state consistent.
pub proof fn set_kyc_status_keeps_consistency(
    s: KycState,
    user: Seq<u8>,
    tier: KycTier,
    signature: Seq<u8>,
    expires_at: u64,
    now: u64,
)
    requires
        s.consistent(),
    ensures
        s.set_kyc_status(user, tier, signature, expires_at, now).0.consistent(),
{
    record_proof_keeps_consistency(
        s,
        user,
        tier,
        expires_at,
        now,
        s.signature_verifies(user, signature, expires_at),
    );
}

/// Recording a checked proof keeps the KYC records consistent.
pub proof fn record_proof_keeps_consistency(
    s: KycState,
    user: Seq<u8>,
    tier: KycTier,
    expires_at: u64,
    now: u64,
    signature_valid: bool,
)
    requires
        s.consistent(),
    ensures
        s.record_proof(user, tier, expires_at, now, signature_valid).0.consistent(),
{
}

proof fn lemma_batch_prefix_consistent(
    s: KycState,
    users: Seq<Seq<u8>>,
    tiers: Seq<KycTier>,
    signatures: Seq<Seq<u8>>,
    expires_at: Seq<u64>,
    now: u64,
    n: nat,
)
    requires
        s.consistent(),
    ensures
        kyc_batch_prefix(s, users, tiers, signatures, expires_at, now, n) matches Ok(t) ==> t.consistent()
            && t.admin == s.admin,
    decreases n,
{
    if n > 0 {
        lemma_batch_prefix_consistent(s, users, tiers, signatures, expires_at, now, (n - 1) as nat);
    }
}

/// A batch of proofs keeps the state consistent.
pub proof fn batch_keeps_consistency(
    s: KycState,
    users: Seq<Seq<u8>>,
    tiers: Seq<KycTier>,
    signatures: Seq<Seq<u8>>,
    expires_at: Seq<u64>,
    now: u64,
)
    requires
        s.consistent(),
    ensures
        s.batch_set_kyc_status(users, tiers, signatures, expires_at, now).0.consistent(),
{
    lemma_batch_prefix_consistent(s, users, tiers, signatures, expires_at, now, users.len());
}

/// `initialize` and `update_verifier` keep the state consistent.
pub proof fn key_changes_keep_consistency(s: KycState, admin: Seq<u8>, key: Seq<u8>)
    requires
        s.consistent(),
    ensures
        s.initialize(admin, key).0.consistent(),
        s.update_verifier(key).0.consistent(),
{
}

/// A recorded proof makes the user valid exactly until its expiry (as long
/// as the verifier is not replaced).
pub proof fn recorded_proof_is_valid_until_expiry(
    s: KycState,
    user: Seq<u8>,
    tier: KycTier,
    signature: Seq<u8>,
    expires_at: u64,
    now: u64,
    later: u64,
)
    requires
        s.set_kyc_status(user, tier, signature, expires_at, now).1 is Ok,
    ensures
        s.set_kyc_status(user, tier, signature, expires_at, now).0.is_kyc_valid(user, later) == Ok::<
            bool,
            KycError,
        >(later < expires_at),
        s.set_kyc_status(user, tier, signature, expires_at, now).0.user_kyc[user].tier == tier,
{
}

/// Replacing the verifier invalidates every proof recorded before: after a
/// successful `update_verifier`, no user is valid at any time until a new
/// proof is recorded.
pub proof fn new_verifier_invalidates_earlier_proofs(s: KycState, new_pubkey: Seq<u8>)
    requires
        s.consistent(),
        s.update_verifier(new_pubkey).1 is Ok,
    ensures
        forall|user: Seq<u8>, now: u64| #[trigger]
            s.update_verifier(new_pubkey).0.is_kyc_valid(user, now) == Ok::<bool, KycError>(false),
{
    let t = s.update_verifier(new_pubkey).0;
    assert forall|user: Seq<u8>, now: u64| #[trigger] t.is_kyc_valid(user, now) == Ok::<bool, KycError>(false) by {
        if s.user_kyc.contains_key(user) {
            assert(s.user_kyc[user].verifier_version <= s.verifier_version->Some_0);
        }
    }
}

/// Expired proofs and proofs whose signature does not verify are refused
/// and change nothing.
pub proof fn bad_proofs_are_refused(
    s: KycState,
    user: Seq<u8>,
    tier: KycTier,
    signature: Seq<u8>,
    expires_at: u64,
    now: u64,
)
    ensures
        expires_at <= now ==> s.set_kyc_status(user, tier, signature, expires_at, now) == (s, Err::<
            (),
            KycError,
        >(KycError::ProofExpired)),
        (expires_at > now && s.verifier_pubkey is Some && !ed25519_strict_verifies(
            s.verifier_pubkey->Some_0,
            kyc_message(user, expires_at),
            signature,
        )) ==> s.set_kyc_status(user, tier, signature, expires_at, now) == (s, Err::<(), KycError>(
            KycError::InvalidSignature,
        )),
{
}

/// The Pro tier allows more than the Basic tier.
pub proof fn pro_limit_exceeds_basic_limit()
    ensures
        tier_limit(KycTier::Pro) > tier_limit(KycTier::Basic),
{
}

/// Recording a batch prefix keeps the verifier key and version.
proof fn lemma_batch_prefix_keeps_verifier(
    s: KycState,
    users: Seq<Seq<u8>>,
    tiers: Seq<KycTier>,
    signatures: Seq<Seq<u8>>,
    expires_at: Seq<u64>,
    now: u64,
    n: nat,
)
    requires
        kyc_batch_prefix(s, users, tiers, signatures, expires_at, now, n) is Ok,
    ensures
        kyc_batch_prefix(s, users, tiers, signatures, expires_at, now, n)->Ok_0.verifier_version
            == s.verifier_version,
        kyc_batch_prefix(s, users, tiers, signatures, expires_at, now, n)->Ok_0.verifier_pubkey
            == s.verifier_pubkey,
        kyc_batch_prefix(s, users, tiers, signatures, expires_at, now, n)->Ok_0.admin == s.admin,
    decreases n,
{
    if n > 0 {
        lemma_batch_prefix_keeps_verifier(s, users, tiers, signatures, expires_at, now, (n - 1) as nat);
    }
}

/// After a recorded batch prefix of `n` items, item `i` (whose user does not
/// come again later in the prefix) is recorded with its tier and expiry under
/// the current verifier version, its proof had not expired, and its
/// signature verified.
proof fn lemma_batch_prefix_records(
    s: KycState,
    users: Seq<Seq<u8>>,
    tiers: Seq<KycTier>,
    signatures: Seq<Seq<u8>>,
    expires_at: Seq<u64>,
    now: u64,
    n: nat,
    i: int,
)
    requires
        kyc_batch_prefix(s, users, tiers, signatures, expires_at, now, n) is Ok,
        0 <= i < n,
        forall|j: int| i < j < n ==> users[j] != users[i],
    ensures
        ({
            let p = kyc_batch_prefix(s, users, tiers, signatures, expires_at, now, n)->Ok_0;
            &&& s.verifier_version is Some
            &&& p.user_kyc.contains_key(users[i])
            &&& p.user_kyc[users[i]] == KycData {
                tier: tiers[i],
                expires_at: expires_at[i],
                verifier_version: s.verifier_version->0,
            }
            &&& now < expires_at[i]
            &&& s.signature_verifies(users[i], signatures[i], expires_at[i])
        }),
    decreases n,
{
    let m = (n - 1) as nat;
    lemma_batch_prefix_keeps_verifier(s, users, tiers, signatures, expires_at, now, m);
    if i < m {
        lemma_batch_prefix_records(s, users, tiers, signatures, expires_at, now, m, i);
    }
}

/// An all-or-nothing batch that succeeds records every item: for distinct
/// users, each listed user holds a record with its tier and expiry under the
/// current verifier version (which the batch does not change), so it is
/// valid at exactly the times before its expiry. Every item's proof had not
/// expired and its signature verified under the verifier key.
pub proof fn successful_batch_records_every_item(
    s: KycState,
    users: Seq<Seq<u8>>,
    tiers: Seq<KycTier>,
    signatures: Seq<Seq<u8>>,
    expires_at: Seq<u64>,
    now: u64,
    i: int,
    t: u64,
)
    requires
        s.batch_set_kyc_status(users, tiers, signatures, expires_at, now).1 is Ok,
        0 <= i < users.len(),
        forall|j: int, k: int| 0 <= j < k < users.len() ==> users[j] != users[k],
    ensures
        ({
            let post = s.batch_set_kyc_status(users, tiers, signatures, expires_at, now).0;
            &&& s.verifier_version is Some
            &&& post.verifier_version == s.verifier_version
            &&& post.verifier_pubkey == s.verifier_pubkey
            &&& post.user_kyc.contains_key(users[i])
            &&& post.user_kyc[users[i]] == KycData {
                tier: tiers[i],
                expires_at: expires_at[i],
                verifier_version: s.verifier_version->0,
            }
            &&& post.is_kyc_valid(users[i], t) == Ok::<bool, KycError>(t < expires_at[i])
            &&& now < expires_at[i]
            &&& s.signature_verifies(users[i], signatures[i], expires_at[i])
        }),
{
    let n = users.len();
    assert forall|j: int| i < j < n implies users[j] != users[i] by {
        assert(users[i] != users[j]);
    }
    lemma_batch_prefix_keeps_verifier(s, users, tiers, signatures, expires_at, now, n);
    lemma_batch_prefix_records(s, users, tiers, signatures, expires_at, now, n, i);
}

/// A batch of one item is recording that one proof: on an initialized
/// verifier it has the same outcome and the same new state as
/// `set_kyc_status` on the item.
pub proof fn one_item_batch_is_set_kyc_status(
    s: KycState,
    user: Seq<u8>,
    tier: KycTier,
    signature: Seq<u8>,
    expires_at: u64,
    now: u64,
)
    requires
        s.admin is Some,
    ensures
        s.batch_set_kyc_status(seq![user], seq![tier], seq![signature], seq![expires_at], now)
            == s.set_kyc_status(user, tier, signature, expires_at, now),
{
    let users = seq![user];
    let tiers = seq![tier];
    let sigs = seq![signature];
    let exps = seq![expires_at];
    assert(kyc_batch_prefix(s, users, tiers, sigs, exps, now, 0) == Ok::<KycState, KycError>(s));
    assert(users[0] == user && tiers[0] == tier && sigs[0] == signature && exps[0] == expires_at);
}

} // verus!
