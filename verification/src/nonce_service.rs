//! The secret nonce behind every round: the house publishes only its hash,
//! replaces it on a schedule and reveals it once it is no longer current.

use crate::db::insert_nonce;
use crate::db::is_nonce_valid;
use crate::db::Ledger;
use crate::db::LedgerError;
use crate::db::NonceRow;
use crate::hashing::commitment_digest;
use crate::hashing::sha2_sha256;
use crate::text::decimal;
use crate::text::decimal_string;
use crate::text::hex_lower;
use crate::text::hex_string;
use crate::text::lemma_hex_lower_len;
use crate::text::same_text;
use vstd::prelude::*;
use vstd::string::*;
use vstd::utf8::encode_utf8;

verus! {

/// The commitment to a nonce given as text: the SHA-256 of its bytes, in
/// lower-case hexadecimal.
pub open spec fn commitment_of_text(nonce: Seq<char>) -> Seq<char> {
    hex_lower(sha2_sha256(encode_utf8(nonce)))
}

/// The commitment to a nonce: the SHA-256 of its decimal digits, in
/// lower-case hexadecimal.
pub open spec fn commitment(nonce: u64) -> Seq<char> {
    commitment_of_text(decimal(nonce as nat))
}

/// The row under which a nonce is stored at `now` when it stays valid for
/// `validity_hours` hours.
pub open spec fn nonce_row(id: i64, nonce: u64, validity_hours: u64, now: i64) -> NonceRow {
    NonceRow {
        id,
        nonce: decimal(nonce as nat),
        nonce_hash: commitment(nonce),
        created_at: now,
        expires_at: (now + validity_hours * 3600) as i64,
    }
}

/// Draws a nonce with `rand::random`. Nothing is claimed of the value.
#[verifier::external_body]
fn random_nonce() -> (nonce: u64) {
    rand::random::<u64>()
}

/// The commitment to a nonce given as text.
pub fn hash_nonce_text(nonce: &str) -> (hash: String)
    ensures
        hash@ == commitment_of_text(nonce@),
        hash@.len() == 64,
{
    let digest = commitment_digest(nonce.as_bytes());
    proof {
        lemma_hex_lower_len(digest@);
    }
    hex_string(digest.as_slice())
}

/// Holds the current nonce and how long a nonce stays valid.
pub struct NonceService {
    current_nonce: u64,
    validity_hours: u64,
}

impl NonceService {
    /// The nonce that rounds are currently evaluated with.
    pub closed spec fn current(&self) -> u64 {
        self.current_nonce
    }

    /// For how many hours a nonce stays valid once it is stored.
    pub closed spec fn validity(&self) -> u64 {
        self.validity_hours
    }

    /// A service that starts with a freshly drawn nonce.
    pub fn new(validity_hours: u64) -> (service: NonceService)
        ensures
            service.validity() == validity_hours,
    {
        NonceService::with_nonce(random_nonce(), validity_hours)
    }

    /// A service that starts with the given nonce.
    pub fn with_nonce(initial_nonce: u64, validity_hours: u64) -> (service: NonceService)
        ensures
            service.current() == initial_nonce,
            service.validity() == validity_hours,
    {
        NonceService { current_nonce: initial_nonce, validity_hours }
    }

    pub fn get_current_nonce(&self) -> (nonce: u64)
        ensures
            nonce == self.current(),
    {
        self.current_nonce
    }

    /// The commitment to the current nonce.
    pub fn get_current_nonce_hash(&self) -> (hash: String)
        ensures
            hash@ == commitment(self.current()),
            hash@.len() == 64,
    {
        let nonce = decimal_string(self.current_nonce);
        hash_nonce_text(nonce.as_str())
    }

    /// Whether `nonce` is stored in the ledger and has not expired at `now`.
    pub fn verify_nonce(&self, ledger: &Ledger, nonce: &str, now: i64) -> (valid: bool)
        ensures
            valid == ledger@.has_valid_nonce(nonce@, now),
    {
        is_nonce_valid(ledger, nonce, now)
    }

    /// Hands `nonce_str` back if it may be revealed, that is, unless it is the
    /// current nonce.
    pub fn get_revealable_nonce(&self, nonce_str: &str) -> (revealed: Option<String>)
        ensures
            match revealed {
                Some(nonce) => nonce@ == nonce_str@ && nonce_str@ != decimal(self.current() as nat),
                None => nonce_str@ == decimal(self.current() as nat),
            },
    {
        let current = decimal_string(self.current_nonce);
        if same_text(nonce_str, current.as_str()) {
            None
        } else {
            Some(nonce_str.to_owned())
        }
    }

    /// Makes `new_nonce` the current nonce and stores it with its commitment
    /// and its expiry. The nonce is replaced even where the ledger refuses
    /// the row.
    pub fn install(&mut self, ledger: &mut Ledger, new_nonce: u64, now: i64) -> (result: Result<
        i64,
        LedgerError,
    >)
        requires
            old(ledger)@.wf(),
            now + old(self).validity() * 3600 <= i64::MAX,
        ensures
            final(ledger)@.wf(),
            final(self).current() == new_nonce,
            final(self).validity() == old(self).validity(),
            match result {
                Ok(id) => {
                    &&& id == old(ledger)@.nonces.len() + 1
                    &&& final(ledger)@ == old(ledger)@.with_nonce(
                        nonce_row(id, new_nonce, old(self).validity(), now),
                    )
                },
                Err(error) => {
                    &&& error == LedgerError::Write
                    &&& old(ledger)@.nonces.len() == i64::MAX
                    &&& final(ledger)@ == old(ledger)@
                },
            },
    {
        let stored = store_nonce(ledger, new_nonce, self.validity_hours, now);
        self.current_nonce = new_nonce;
        stored
    }

    /// Replaces the current nonce by a freshly drawn one and stores it.
    pub fn generate(&mut self, ledger: &mut Ledger, now: i64) -> (result: Result<i64, LedgerError>)
        requires
            old(ledger)@.wf(),
            now + old(self).validity() * 3600 <= i64::MAX,
        ensures
            final(ledger)@.wf(),
            final(self).validity() == old(self).validity(),
            match result {
                Ok(id) => {
                    &&& id == old(ledger)@.nonces.len() + 1
                    &&& final(ledger)@ == old(ledger)@.with_nonce(
                        nonce_row(id, final(self).current(), old(self).validity(), now),
                    )
                },
                Err(error) => {
                    &&& error == LedgerError::Write
                    &&& old(ledger)@.nonces.len() == i64::MAX
                    &&& final(ledger)@ == old(ledger)@
                },
            },
    {
        self.install(ledger, random_nonce(), now)
    }
}

fn store_nonce(ledger: &mut Ledger, nonce: u64, validity_hours: u64, now: i64) -> (result: Result<
    i64,
    LedgerError,
>)
    requires
        old(ledger)@.wf(),
        now + validity_hours * 3600 <= i64::MAX,
    ensures
        final(ledger)@.wf(),
        match result {
            Ok(id) => {
                &&& id == old(ledger)@.nonces.len() + 1
                &&& final(ledger)@ == old(ledger)@.with_nonce(
                    nonce_row(id, nonce, validity_hours, now),
                )
            },
            Err(error) => {
                &&& error == LedgerError::Write
                &&& old(ledger)@.nonces.len() == i64::MAX
                &&& final(ledger)@ == old(ledger)@
            },
        },
{
    let nonce_str = decimal_string(nonce);
    let nonce_hash = hash_nonce_text(nonce_str.as_str());
    let expires_at: i64 = (now as i128 + validity_hours as i128 * 3600) as i64;
    insert_nonce(ledger, nonce_str.as_str(), nonce_hash.as_str(), expires_at, now)
}

/// Starts a nonce service: draws the first nonce and stores it with its
/// commitment. The service starts even where the ledger refuses the row.
pub fn spawn_nonce_service(ledger: &mut Ledger, validity_hours: u64, now: i64) -> (service:
    NonceService)
    requires
        old(ledger)@.wf(),
        now + validity_hours * 3600 <= i64::MAX,
    ensures
        final(ledger)@.wf(),
        service.validity() == validity_hours,
        final(ledger)@ == if old(ledger)@.nonces.len() < i64::MAX {
            old(ledger)@.with_nonce(
                nonce_row(
                    (old(ledger)@.nonces.len() + 1) as i64,
                    service.current(),
                    validity_hours,
                    now,
                ),
            )
        } else {
            old(ledger)@
        },
{
    let service = NonceService::new(validity_hours);
    let _ = store_nonce(ledger, service.current_nonce, validity_hours, now);
    service
}

} // verus!
