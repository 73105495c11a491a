//! The life of the encrypted vault: uninitialized, locked, unlocked.
//!
//! The database is encrypted with a key that Argon2id derives from a
//! passphrase and a salt. The salt stands in a file; the passphrase and the key
//! never do.

use vstd::prelude::*;
use vstd::string::*;

use crate::ledger;
use crate::outside;
use crate::outside::{argon2_hash, base64_decode, base64_encode, random_bytes};
use crate::store;
use crate::store::StoreView;
use crate::text;
use crate::text::{decimal_u64, encode_hex, trim};

verus! {

/// Memory that deriving a key takes, in KiB.
pub const ARGON2_MEM_KIB: u32 = 65_536;

/// Passes over that memory.
pub const ARGON2_TIME_COST: u32 = 3;

/// Lanes that memory is divided into.
pub const ARGON2_PARALLELISM: u32 = 4;

/// Bytes of a key.
pub const ARGON2_OUTPUT_LEN: usize = 32;

/// Bytes of a salt.
pub const SALT_LEN: usize = 16;

/// Nanoseconds of a second.
pub const SECOND: u64 = 1_000_000_000;

/// Nanoseconds without activity after which the vault locks: thirty minutes.
pub const DEFAULT_LOCK_TIMEOUT: u64 = 1_800_000_000_000;

/// Why something could not be done with the vault.
#[derive(Debug)]
pub enum VaultError {
    /// There is a vault already.
    AlreadyInitialized,
    /// There is no vault yet.
    NotInitialized,
    /// The salt file does not hold Base64.
    SaltNotBase64,
    /// The salt file holds something else than sixteen bytes.
    SaltWrongLength,
    /// No key could be derived.
    Kdf,
    /// The database could not be opened.
    Open,
    /// The schema could not be brought up to date.
    Migrate,
    /// The key does not open the database.
    WrongPassphrase,
    /// The vault is locked.
    Locked,
    /// The proposal was accepted or rejected before.
    AlreadyResolved,
    /// There is no such proposal.
    NotFound,
    /// There is no such proposal that is still open.
    NotPending,
    /// Something else, as it was reported.
    Other(String),
}

impl VaultError {
    /// The error in words.
    pub open spec fn text(self) -> Seq<char> {
        match self {
            VaultError::AlreadyInitialized => "vault already initialized"@,
            VaultError::NotInitialized => "vault not initialized"@,
            VaultError::SaltNotBase64 => "vault.salt is not valid base64"@,
            VaultError::SaltWrongLength => "vault.salt has wrong length"@,
            VaultError::Kdf => "argon2 KDF failed"@,
            VaultError::Open => "open vault db"@,
            VaultError::Migrate => "run vault migrations"@,
            VaultError::WrongPassphrase => "wrong passphrase"@,
            VaultError::Locked => "vault locked"@,
            VaultError::AlreadyResolved => "already resolved"@,
            VaultError::NotFound => "not found"@,
            VaultError::NotPending => "not pending or not found"@,
            VaultError::Other(m) => m@,
        }
    }

    /// The error in words.
    pub fn message(&self) -> (r: String)
        ensures
            r@ == self.text(),
    {
        match self {
            VaultError::AlreadyInitialized => "vault already initialized".to_string(),
            VaultError::NotInitialized => "vault not initialized".to_string(),
            VaultError::SaltNotBase64 => "vault.salt is not valid base64".to_string(),
            VaultError::SaltWrongLength => "vault.salt has wrong length".to_string(),
            VaultError::Kdf => "argon2 KDF failed".to_string(),
            VaultError::Open => "open vault db".to_string(),
            VaultError::Migrate => "run vault migrations".to_string(),
            VaultError::WrongPassphrase => "wrong passphrase".to_string(),
            VaultError::Locked => "vault locked".to_string(),
            VaultError::AlreadyResolved => "already resolved".to_string(),
            VaultError::NotFound => "not found".to_string(),
            VaultError::NotPending => "not pending or not found".to_string(),
            VaultError::Other(m) => m.clone(),
        }
    }
}

/// The key that a passphrase and a salt give.
pub open spec fn vault_key(passphrase: Seq<char>, salt: Seq<u8>) -> Seq<u8> {
    outside::argon2id(
        vstd::utf8::encode_utf8(passphrase),
        salt,
        ARGON2_MEM_KIB,
        ARGON2_TIME_COST,
        ARGON2_PARALLELISM,
        ARGON2_OUTPUT_LEN as nat,
    )
}

/// Derives the key from a passphrase and a salt. There is none only for a
/// passphrase of more bytes than Argon2 takes.
pub fn derive_key(passphrase: &str, salt: &[u8; 16]) -> (r: Result<[u8; 32], VaultError>)
    ensures
        match r {
            Ok(key) => vstd::utf8::encode_utf8(passphrase@).len() <= 0xffff_ffff && key@ == vault_key(
                passphrase@,
                salt@,
            ),
            Err(e) => vstd::utf8::encode_utf8(passphrase@).len() > 0xffff_ffff && e is Kdf,
        },
{
    let tag = match argon2_hash(
        passphrase.as_bytes(),
        salt.as_slice(),
        ARGON2_MEM_KIB,
        ARGON2_TIME_COST,
        ARGON2_PARALLELISM,
        ARGON2_OUTPUT_LEN,
    ) {
        Ok(tag) => tag,
        Err(_) => return Err(VaultError::Kdf),
    };
    let mut key: [u8; 32] = [0u8; 32];
    let mut i: usize = 0;
    while i < 32
        invariant
            i <= 32,
            tag@.len() == 32,
            key@.len() == 32,
            forall|j: int| 0 <= j < i ==> key@[j] == tag@[j],
        decreases 32 - i,
    {
        key[i] = tag[i];
        i = i + 1;
    }
    assert(key@ =~= tag@);
    Ok(key)
}

/// What the database is told of a key.
pub open spec fn pragma_of(key: Seq<u8>) -> Seq<char> {
    "PRAGMA key = \"x'"@ + text::hex(key) + "'\"; PRAGMA cipher_page_size = 4096;"@
}

/// The statements that give the database its key, as raw bytes in hexadecimal,
/// and its page size.
pub fn key_pragma(key: &[u8; 32]) -> (r: String)
    ensures
        r@ == pragma_of(key@),
{
    let mut r: String = "PRAGMA key = \"x'".to_string();
    let hex = encode_hex(key.as_slice());
    r.append(hex.as_str());
    r.append("'\"; PRAGMA cipher_page_size = 4096;");
    r
}

/// A salt for a new vault, and what the salt file is to hold.
pub fn new_salt() -> (r: ([u8; 16], String))
    ensures
        r.1@ == outside::base64_of(r.0@),
{
    let salt = random_bytes();
    let held = salt_text(&salt);
    (salt, held)
}

/// What the salt file holds of a salt.
pub fn salt_text(salt: &[u8; 16]) -> (r: String)
    ensures
        r@ == outside::base64_of(salt@),
{
    base64_encode(salt.as_slice())
}

/// Reads the salt file.
pub fn parse_salt(held: &str) -> (r: Result<[u8; 16], VaultError>)
    ensures
        match r {
            Ok(salt) => outside::base64_of(salt@) == text::trimmed(held@),
            Err(VaultError::SaltWrongLength) => exists|v: Seq<u8>|
                v.len() != SALT_LEN && #[trigger] outside::base64_of(v) == text::trimmed(held@),
            Err(VaultError::SaltNotBase64) => forall|v: Seq<u8>| #[trigger]
                outside::base64_of(v) != text::trimmed(held@),
            Err(_) => false,
        },
{
    let inner = trim(held);
    let bytes = match base64_decode(inner.as_str()) {
        Ok(bytes) => bytes,
        Err(_) => return Err(VaultError::SaltNotBase64),
    };
    if bytes.len() != SALT_LEN {
        assert(bytes@.len() != SALT_LEN && outside::base64_of(bytes@) == text::trimmed(held@));
        return Err(VaultError::SaltWrongLength);
    }
    let mut salt: [u8; 16] = [0u8; 16];
    let mut i: usize = 0;
    while i < 16
        invariant
            i <= 16,
            bytes@.len() == 16,
            salt@.len() == 16,
            forall|j: int| 0 <= j < i ==> salt@[j] == bytes@[j],
        decreases 16 - i,
    {
        salt[i] = bytes[i];
        i = i + 1;
    }
    assert(salt@ =~= bytes@);
    Ok(salt)
}

/// A key, and the statements that give it to the database.
#[derive(Debug)]
pub struct KeyMaterial {
    pub key: [u8; 32],
    pub pragma: String,
}

/// A key of a new vault, and what its salt file is to hold.
pub fn key_for_new(passphrase: &str) -> (r: Result<(KeyMaterial, String), VaultError>)
    ensures
        match r {
            Ok((k, held)) => exists|salt: Seq<u8>|
                salt.len() == SALT_LEN && held@ == #[trigger] outside::base64_of(salt) && k.key@
                    == vault_key(passphrase@, salt) && k.pragma@ == pragma_of(k.key@),
            Err(e) => vstd::utf8::encode_utf8(passphrase@).len() > 0xffff_ffff && e is Kdf,
        },
{
    let (salt, held) = new_salt();
    match derive_key(passphrase, &salt) {
        Ok(key) => {
            let pragma = key_pragma(&key);
            assert(salt@.len() == SALT_LEN && held@ == outside::base64_of(salt@));
            Ok((KeyMaterial { key, pragma }, held))
        },
        Err(e) => Err(e),
    }
}

/// The key of the vault whose salt file holds `held`.
pub fn key_for_existing(passphrase: &str, held: &str) -> (r: Result<KeyMaterial, VaultError>)
    ensures
        match r {
            Ok(k) => exists|salt: Seq<u8>|
                salt.len() == SALT_LEN && #[trigger] outside::base64_of(salt) == text::trimmed(
                    held@,
                ) && k.key@ == vault_key(passphrase@, salt) && k.pragma@ == pragma_of(k.key@),
            Err(VaultError::SaltWrongLength) => exists|v: Seq<u8>|
                v.len() != SALT_LEN && #[trigger] outside::base64_of(v) == text::trimmed(held@),
            Err(VaultError::SaltNotBase64) => forall|v: Seq<u8>| #[trigger]
                outside::base64_of(v) != text::trimmed(held@),
            Err(e) => vstd::utf8::encode_utf8(passphrase@).len() > 0xffff_ffff && e is Kdf,
        },
{
    let salt = match parse_salt(held) {
        Ok(salt) => salt,
        Err(e) => return Err(e),
    };
    match derive_key(passphrase, &salt) {
        Ok(key) => {
            let pragma = key_pragma(&key);
            assert(salt@.len() == SALT_LEN && outside::base64_of(salt@) == text::trimmed(held@));
            Ok(KeyMaterial { key, pragma })
        },
        Err(e) => Err(e),
    }
}

/// The passphrase that a vault was created with gives its key again: whatever
/// salt is read from the file that was written, the key is the same.
pub proof fn same_passphrase_gives_the_same_key(
    passphrase: Seq<char>,
    salt: Seq<u8>,
    read: Seq<u8>,
)
    requires
        outside::base64_of(read) == text::trimmed(outside::base64_of(salt)),
    ensures
        vault_key(passphrase, read) == vault_key(passphrase, salt),
{
    salt_file_gives_back_the_salt(salt, read);
}

proof fn base64_digits_differ(a: int, b: int)
    requires
        0 <= a < 64,
        0 <= b < 64,
    ensures
        outside::base64_digit(a) == outside::base64_digit(b) ==> a == b,
        outside::base64_digit(a) != '=',
        !text::is_space(outside::base64_digit(a)),
{
    assert(('A' as int + a) as char as int == 65 + a || a >= 26);
    assert(('a' as int + (a - 26)) as char as int == 97 + a - 26 || !(26 <= a < 52));
    assert(('0' as int + (a - 52)) as char as int == 48 + a - 52 || !(52 <= a < 62));
    assert(('A' as int + b) as char as int == 65 + b || b >= 26);
    assert(('a' as int + (b - 26)) as char as int == 97 + b - 26 || !(26 <= b < 52));
    assert(('0' as int + (b - 52)) as char as int == 48 + b - 52 || !(52 <= b < 62));
}

/// The byte at `i`, or zero where there is none.
spec fn byte_or_zero(b: Seq<u8>, i: int) -> int {
    if i < b.len() {
        b[i] as int
    } else {
        0
    }
}

proof fn base64_first_quad(b: Seq<u8>)
    ensures
        b.len() == 0 <==> outside::base64_of(b).len() == 0,
        b.len() > 0 ==> {
            let s = outside::base64_of(b);
            let b0 = byte_or_zero(b, 0);
            let b1 = byte_or_zero(b, 1);
            let b2 = byte_or_zero(b, 2);
            &&& s.len() >= 4
            &&& b.len() <= 3 <==> s.len() == 4
            &&& s[0] == outside::base64_digit(b0 / 4)
            &&& s[1] == outside::base64_digit(b0 % 4 * 16 + b1 / 16)
            &&& s[2] == if b.len() > 1 {
                outside::base64_digit(b1 % 16 * 4 + b2 / 64)
            } else {
                '='
            }
            &&& s[3] == if b.len() > 2 {
                outside::base64_digit(b2 % 64)
            } else {
                '='
            }
            &&& b.len() > 3 ==> outside::base64_of(b.skip(3)) == s.skip(4)
        },
    decreases b.len(),
{
    if b.len() > 3 {
        base64_first_quad(b.skip(3));
        assert(outside::base64_of(b).skip(4) =~= outside::base64_of(b.skip(3)));
    }
}

/// Base64 of different bytes differs.
pub proof fn base64_is_injective(a: Seq<u8>, b: Seq<u8>)
    requires
        outside::base64_of(a) == outside::base64_of(b),
    ensures
        a == b,
    decreases a.len(),
{
    base64_first_quad(a);
    base64_first_quad(b);
    if a.len() > 0 {
        let a0 = byte_or_zero(a, 0);
        let a1 = byte_or_zero(a, 1);
        let a2 = byte_or_zero(a, 2);
        let b0 = byte_or_zero(b, 0);
        let b1 = byte_or_zero(b, 1);
        let b2 = byte_or_zero(b, 2);
        base64_digits_differ(a0 / 4, b0 / 4);
        base64_digits_differ(a0 % 4 * 16 + a1 / 16, b0 % 4 * 16 + b1 / 16);
        base64_digits_differ(a1 % 16 * 4 + a2 / 64, b1 % 16 * 4 + b2 / 64);
        base64_digits_differ(b1 % 16 * 4 + b2 / 64, a1 % 16 * 4 + a2 / 64);
        base64_digits_differ(a2 % 64, b2 % 64);
        base64_digits_differ(b2 % 64, a2 % 64);
        assert(a0 % 4 == b0 % 4 && a1 / 16 == b1 / 16);
        if a.len() > 3 {
            base64_is_injective(a.skip(3), b.skip(3));
            assert forall|i: int| 3 <= i < a.len() implies a[i] == b[i] by {
                assert(a.skip(3)[i - 3] == b.skip(3)[i - 3]);
            }
        }
    }
    assert(a =~= b);
}

proof fn base64_has_no_space(b: Seq<u8>)
    ensures
        forall|i: int|
            0 <= i < outside::base64_of(b).len() ==> !text::is_space(
                #[trigger] outside::base64_of(b)[i],
            ),
    decreases b.len(),
{
    base64_first_quad(b);
    if b.len() > 0 {
        let b0 = byte_or_zero(b, 0);
        let b1 = byte_or_zero(b, 1);
        let b2 = byte_or_zero(b, 2);
        base64_digits_differ(b0 / 4, 0);
        base64_digits_differ(b0 % 4 * 16 + b1 / 16, 0);
        base64_digits_differ(b1 % 16 * 4 + b2 / 64, 0);
        base64_digits_differ(b2 % 64, 0);
        if b.len() > 3 {
            let rest = b.skip(3);
            base64_has_no_space(rest);
            assert forall|i: int| 0 <= i < outside::base64_of(b).len() implies !text::is_space(
                #[trigger] outside::base64_of(b)[i],
            ) by {
                if i >= 4 {
                    assert(outside::base64_of(b)[i] == outside::base64_of(rest)[i - 4]);
                }
            }
        }
    }
}

/// The salt file gives back the salt that was written: of the text that
/// `salt_text` makes, `parse_salt` can only make the salt again.
pub proof fn salt_file_gives_back_the_salt(salt: Seq<u8>, read: Seq<u8>)
    ensures
        text::trimmed(outside::base64_of(salt)) == outside::base64_of(salt),
        outside::base64_of(read) == text::trimmed(outside::base64_of(salt)) ==> read == salt,
{
    base64_has_no_space(salt);
    let held = outside::base64_of(salt);
    if held.len() > 0 {
        assert(!text::is_space(held[0]));
        assert(!text::is_space(held.last()));
    }
    assert(text::trimmed(held) == held);
    if outside::base64_of(read) == held {
        base64_is_injective(read, salt);
    }
}

/// How long ago something was, in the largest unit that fits.
pub open spec fn age_text(seconds: nat) -> Seq<char> {
    if seconds < 60 {
        text::decimal(seconds) + "s"@
    } else if seconds < 3600 {
        text::decimal(seconds / 60) + "m"@
    } else {
        text::decimal(seconds / 3600) + "h"@
    }
}

/// How long ago something was, in the largest unit that fits.
pub fn format_age(seconds: u64) -> (r: String)
    ensures
        r@ == age_text(seconds as nat),
{
    let (n, unit) = if seconds < 60 {
        (seconds, "s")
    } else if seconds < 3600 {
        (seconds / 60, "m")
    } else {
        (seconds / 3600, "h")
    };
    let mut r = decimal_u64(n);
    r.append(unit);
    r
}

/// What is shown of the vault.
#[derive(Debug, Clone)]
pub struct VaultStatus {
    pub initialized: bool,
    pub locked: bool,
    /// How long ago the vault was unlocked.
    pub opened_at: Option<String>,
    pub idle_seconds_until_lock: Option<u64>,
}

/// Whether the vault is unlocked, and since when. Times are nanoseconds of a
/// clock that does not go back.
#[derive(Debug, Clone, Copy, PartialEq, Eq, Structural)]
pub struct VaultState {
    /// Time without activity after which the vault locks.
    pub lock_timeout: u64,
    /// When the vault was unlocked; `None` while it is locked.
    pub opened_at: Option<u64>,
    /// When something was last done.
    pub last_activity: u64,
}

/// The time from `then` to `now`.
pub open spec fn elapsed(then: u64, now: u64) -> int {
    if now >= then {
        now - then
    } else {
        0
    }
}

fn time_since(then: u64, now: u64) -> (r: u64)
    ensures
        r == elapsed(then, now),
{
    if now >= then {
        now - then
    } else {
        0
    }
}

impl VaultState {
    /// A locked vault.
    pub fn new(now: u64) -> (r: VaultState)
        ensures
            r == (VaultState {
                lock_timeout: DEFAULT_LOCK_TIMEOUT,
                opened_at: None,
                last_activity: now,
            }),
    {
        VaultState { lock_timeout: DEFAULT_LOCK_TIMEOUT, opened_at: None, last_activity: now }
    }

    /// Whether there is no key and no connection.
    pub fn is_locked(&self) -> (r: bool)
        ensures
            r == (self.opened_at is None),
    {
        self.opened_at.is_none()
    }

    /// Notes activity.
    pub fn touch(&mut self, now: u64)
        ensures
            *final(self) == (VaultState { last_activity: now, ..*old(self) }),
    {
        self.last_activity = now;
    }

    /// Nanoseconds until the vault locks by itself.
    pub open spec fn time_left(self, now: u64) -> int {
        if self.lock_timeout >= elapsed(self.last_activity, now) {
            self.lock_timeout - elapsed(self.last_activity, now)
        } else {
            0
        }
    }

    /// What is shown of the vault.
    pub fn status(&self, initialized: bool, now: u64) -> (r: VaultStatus)
        ensures
            r.initialized == initialized,
            r.locked == (self.opened_at is None),
            text::opt_text(r.opened_at) == match self.opened_at {
                Some(at) => Some(age_text((elapsed(at, now) / SECOND as int) as nat)),
                None => None,
            },
            r.idle_seconds_until_lock == match self.opened_at {
                Some(_) => Some((self.time_left(now) / SECOND as int) as u64),
                None => None,
            },
    {
        match self.opened_at {
            None => VaultStatus {
                initialized,
                locked: true,
                opened_at: None,
                idle_seconds_until_lock: None,
            },
            Some(at) => {
                let idle: u64 = time_since(self.last_activity, now);
                let left: u64 = if self.lock_timeout >= idle {
                    self.lock_timeout - idle
                } else {
                    0
                };
                let age = time_since(at, now) / SECOND;
                VaultStatus {
                    initialized,
                    locked: false,
                    opened_at: Some(format_age(age)),
                    idle_seconds_until_lock: Some(left / SECOND),
                }
            },
        }
    }

    /// Locks the vault. Says whether it was unlocked: then that is to be put in
    /// the audit log before the key and the connection go.
    pub fn lock(&mut self) -> (was_open: bool)
        ensures
            was_open == (old(self).opened_at is Some),
            *final(self) == (VaultState { opened_at: None, ..*old(self) }),
    {
        let was_open = self.opened_at.is_some();
        self.opened_at = None;
        was_open
    }

    /// Whether the vault is unlocked and has been idle for too long.
    pub open spec fn is_due_to_lock(self, now: u64) -> bool {
        self.opened_at is Some && elapsed(self.last_activity, now) >= self.lock_timeout
    }

    /// Locks the vault where it has been idle for too long, and says whether it
    /// did.
    pub fn maybe_auto_lock(&mut self, now: u64) -> (locked: bool)
        ensures
            locked == old(self).is_due_to_lock(now),
            *final(self) == if locked {
                VaultState { opened_at: None, ..*old(self) }
            } else {
                *old(self)
            },
            !final(self).is_due_to_lock(now),
    {
        let due = self.opened_at.is_some() && time_since(self.last_activity, now)
            >= self.lock_timeout;
        if due {
            self.lock();
        }
        due
    }

    /// Refuses what needs the connection while the vault is locked.
    pub fn check_unlocked(&self) -> (r: Result<(), VaultError>)
        ensures
            match r {
                Ok(()) => self.opened_at is Some,
                Err(e) => self.opened_at is None && e is Locked,
            },
    {
        if self.opened_at.is_some() {
            Ok(())
        } else {
            Err(VaultError::Locked)
        }
    }

    /// The vault after a step of opening it: unlocked once the last is done.
    pub open spec fn after_step(self, step: OpenStep, now: u64) -> VaultState {
        if step == OpenStep::Done {
            VaultState { opened_at: Some(now), last_activity: now, ..self }
        } else {
            self
        }
    }

    /// Takes the vault for unlocked once the last step of opening it is done.
    pub fn note_step(&mut self, step: OpenStep, now: u64)
        ensures
            *final(self) == old(self).after_step(step, now),
    {
        if step == OpenStep::Done {
            self.opened_at = Some(now);
            self.last_activity = now;
        }
    }
}

/// What is to be done next to create or to open the vault.
#[derive(Debug, Clone, Copy, PartialEq, Eq, Structural)]
pub enum OpenStep {
    /// Make the directory.
    CreateDir,
    /// Read the salt file.
    ReadSalt,
    /// Open the database and give it the key.
    OpenDatabase,
    /// Bring the schema up to date.
    Migrate,
    /// Write the salt file.
    WriteSalt,
    /// Ask the database something, to see whether the key opens it.
    Probe,
    /// Put it in the audit log.
    Audit,
    /// Nothing: the vault is open.
    Done,
}

/// The step that follows in creating a vault; nothing where it has failed.
pub open spec fn init_step(step: OpenStep, succeeded: bool) -> Option<OpenStep> {
    match step {
        OpenStep::CreateDir => if succeeded {
            Some(OpenStep::OpenDatabase)
        } else {
            None
        },
        OpenStep::OpenDatabase => if succeeded {
            Some(OpenStep::Migrate)
        } else {
            None
        },
        OpenStep::Migrate => if succeeded {
            Some(OpenStep::WriteSalt)
        } else {
            None
        },
        OpenStep::WriteSalt => if succeeded {
            Some(OpenStep::Audit)
        } else {
            None
        },
        OpenStep::Audit => Some(OpenStep::Done),
        other => Some(other),
    }
}

/// The step that follows in opening a vault; nothing where it has failed.
pub open spec fn unlock_step(step: OpenStep, succeeded: bool) -> Option<OpenStep> {
    match step {
        OpenStep::ReadSalt => if succeeded {
            Some(OpenStep::OpenDatabase)
        } else {
            None
        },
        OpenStep::OpenDatabase => if succeeded {
            Some(OpenStep::Probe)
        } else {
            None
        },
        OpenStep::Probe => if succeeded {
            Some(OpenStep::Audit)
        } else {
            None
        },
        OpenStep::Audit => Some(OpenStep::Done),
        other => Some(other),
    }
}

/// What is reported of a step that failed with `message`.
pub open spec fn step_error(step: OpenStep, message: Seq<char>) -> Seq<char> {
    match step {
        OpenStep::OpenDatabase => "open vault db"@,
        OpenStep::Migrate => "run vault migrations"@,
        OpenStep::Probe => "wrong passphrase"@,
        _ => message,
    }
}

fn failed_step(step: OpenStep, message: String) -> (r: VaultError)
    ensures
        r.text() == step_error(step, message@),
        step == OpenStep::Probe <==> r is WrongPassphrase,
{
    match step {
        OpenStep::OpenDatabase => VaultError::Open,
        OpenStep::Migrate => VaultError::Migrate,
        OpenStep::Probe => VaultError::WrongPassphrase,
        _ => VaultError::Other(message),
    }
}

/// The first step of creating a vault, unless there is one.
pub fn begin_init(initialized: bool) -> (r: Result<OpenStep, VaultError>)
    ensures
        match r {
            Ok(s) => !initialized && s == OpenStep::CreateDir,
            Err(e) => initialized && e is AlreadyInitialized,
        },
        r is Ok ==> init_path(Seq::empty()) == Some(r->Ok_0),
{
    if initialized {
        Err(VaultError::AlreadyInitialized)
    } else {
        Ok(OpenStep::CreateDir)
    }
}

/// The first step of opening a vault, where there is one.
pub fn begin_unlock(initialized: bool) -> (r: Result<OpenStep, VaultError>)
    ensures
        match r {
            Ok(s) => initialized && s == OpenStep::ReadSalt,
            Err(e) => !initialized && e is NotInitialized,
        },
        r is Ok ==> unlock_path(Seq::empty()) == Some(r->Ok_0),
{
    if initialized {
        Ok(OpenStep::ReadSalt)
    } else {
        Err(VaultError::NotInitialized)
    }
}

/// The step that follows in creating a vault, after one came to `outcome`. The
/// salt is written only once the database is open and its schema in place, so
/// that no salt is left without a database.
pub fn next_init(step: OpenStep, outcome: Result<(), String>) -> (r: Result<OpenStep, VaultError>)
    ensures
        match r {
            Ok(s) => init_step(step, outcome is Ok) == Some(s),
            Err(e) => init_step(step, outcome is Ok) is None && outcome is Err && e.text()
                == step_error(step, outcome->Err_0@),
        },
{
    match (step, outcome) {
        (OpenStep::CreateDir, Ok(())) => Ok(OpenStep::OpenDatabase),
        (OpenStep::OpenDatabase, Ok(())) => Ok(OpenStep::Migrate),
        (OpenStep::Migrate, Ok(())) => Ok(OpenStep::WriteSalt),
        (OpenStep::WriteSalt, Ok(())) => Ok(OpenStep::Audit),
        (OpenStep::Audit, _) => Ok(OpenStep::Done),
        (OpenStep::ReadSalt, _) => Ok(OpenStep::ReadSalt),
        (OpenStep::Probe, _) => Ok(OpenStep::Probe),
        (OpenStep::Done, _) => Ok(OpenStep::Done),
        (s, Err(m)) => Err(failed_step(s, m)),
    }
}

/// The step that follows in opening a vault, after one came to `outcome`. A key
/// that does not open the database is a wrong passphrase.
pub fn next_unlock(step: OpenStep, outcome: Result<(), String>) -> (r: Result<
    OpenStep,
    VaultError,
>)
    ensures
        match r {
            Ok(s) => unlock_step(step, outcome is Ok) == Some(s),
            Err(e) => unlock_step(step, outcome is Ok) is None && outcome is Err && e.text()
                == step_error(step, outcome->Err_0@) && (e is WrongPassphrase <==> step
                == OpenStep::Probe),
        },
{
    match (step, outcome) {
        (OpenStep::ReadSalt, Ok(())) => Ok(OpenStep::OpenDatabase),
        (OpenStep::OpenDatabase, Ok(())) => Ok(OpenStep::Probe),
        (OpenStep::Probe, Ok(())) => Ok(OpenStep::Audit),
        (OpenStep::Audit, _) => Ok(OpenStep::Done),
        (OpenStep::CreateDir, _) => Ok(OpenStep::CreateDir),
        (OpenStep::Migrate, _) => Ok(OpenStep::Migrate),
        (OpenStep::WriteSalt, _) => Ok(OpenStep::WriteSalt),
        (OpenStep::Done, _) => Ok(OpenStep::Done),
        (s, Err(m)) => Err(failed_step(s, m)),
    }
}

/// Where creating a vault stands after steps with these outcomes.
pub open spec fn init_path(outcomes: Seq<bool>) -> Option<OpenStep>
    decreases outcomes.len(),
{
    if outcomes.len() == 0 {
        Some(OpenStep::CreateDir)
    } else {
        match init_path(outcomes.drop_last()) {
            Some(s) => init_step(s, outcomes.last()),
            None => None,
        }
    }
}

/// Where opening a vault stands after steps with these outcomes.
pub open spec fn unlock_path(outcomes: Seq<bool>) -> Option<OpenStep>
    decreases outcomes.len(),
{
    if outcomes.len() == 0 {
        Some(OpenStep::ReadSalt)
    } else {
        match unlock_path(outcomes.drop_last()) {
            Some(s) => unlock_step(s, outcomes.last()),
            None => None,
        }
    }
}

/// In creating a vault the salt is written after the directory was made, the
/// database opened and the schema put in place, each with success; and the
/// vault counts as open only when the salt was written too.
pub proof fn salt_is_written_after_the_database_is_ready(outcomes: Seq<bool>)
    ensures
        init_path(outcomes) == Some(OpenStep::WriteSalt) ==> outcomes =~= seq![true, true, true],
        init_path(outcomes) == Some(OpenStep::Done) ==> outcomes.len() >= 5 && outcomes.take(4)
            =~= seq![true, true, true, true],
{
    init_path_is_straight(outcomes);
}

proof fn init_path_is_straight(outcomes: Seq<bool>)
    ensures
        match init_path(outcomes) {
            Some(OpenStep::CreateDir) => outcomes =~= Seq::<bool>::empty(),
            Some(OpenStep::OpenDatabase) => outcomes =~= seq![true],
            Some(OpenStep::Migrate) => outcomes =~= seq![true, true],
            Some(OpenStep::WriteSalt) => outcomes =~= seq![true, true, true],
            Some(OpenStep::Audit) => outcomes =~= seq![true, true, true, true],
            Some(OpenStep::Done) => outcomes.len() >= 5 && outcomes.take(4) =~= seq![
                true,
                true,
                true,
                true,
            ],
            Some(_) => false,
            None => true,
        },
    decreases outcomes.len(),
{
    if outcomes.len() > 0 {
        let before = outcomes.drop_last();
        init_path_is_straight(before);
        assert(outcomes =~= before.push(outcomes.last()));
        if before.len() >= 4 {
            assert(outcomes.take(4) =~= before.take(4));
        }
    }
}

/// A vault is opened only where the probe succeeded, that is, where the key
/// opens the database.
pub proof fn only_the_right_key_unlocks(outcomes: Seq<bool>)
    ensures
        unlock_path(outcomes) == Some(OpenStep::Done) ==> outcomes.len() >= 4 && outcomes.take(3)
            =~= seq![true, true, true],
{
    unlock_path_is_straight(outcomes);
}

proof fn unlock_path_is_straight(outcomes: Seq<bool>)
    ensures
        match unlock_path(outcomes) {
            Some(OpenStep::ReadSalt) => outcomes =~= Seq::<bool>::empty(),
            Some(OpenStep::OpenDatabase) => outcomes =~= seq![true],
            Some(OpenStep::Probe) => outcomes =~= seq![true, true],
            Some(OpenStep::Audit) => outcomes =~= seq![true, true, true],
            Some(OpenStep::Done) => outcomes.len() >= 4 && outcomes.take(3) =~= seq![
                true,
                true,
                true,
            ],
            Some(_) => false,
            None => true,
        },
    decreases outcomes.len(),
{
    if outcomes.len() > 0 {
        let before = outcomes.drop_last();
        unlock_path_is_straight(before);
        assert(outcomes =~= before.push(outcomes.last()));
        if before.len() >= 3 {
            assert(outcomes.take(3) =~= before.take(3));
        }
    }
}

/// What stands on disk of a vault: the salt file, the key that the database is
/// encrypted with, and the rows that the database holds.
pub struct DiskView {
    pub salt: Option<Seq<char>>,
    pub key: Seq<u8>,
    pub rows: StoreView,
}

/// Whether a step of opening a vault succeeds with this key, where the files can
/// be read and the database answers just to its own key.
pub open spec fn step_succeeds(disk: DiskView, key: Seq<u8>, step: OpenStep) -> bool {
    match step {
        OpenStep::ReadSalt => disk.salt is Some,
        OpenStep::Probe => key == disk.key,
        _ => true,
    }
}

/// What a step of opening a vault leaves on disk: nothing is written but the
/// entry of the audit log.
pub open spec fn disk_after(disk: DiskView, step: OpenStep, at: Seq<char>) -> DiskView {
    match step {
        OpenStep::Audit => match store::executed(
            disk.rows,
            ledger::audit_of("vault_unlock"@, None, at),
        ) {
            Some((rows, _)) => DiskView { rows, ..disk },
            None => disk,
        },
        _ => disk,
    }
}

/// How many steps of opening a vault are left.
pub open spec fn steps_left(step: OpenStep) -> nat {
    match step {
        OpenStep::ReadSalt => 4,
        OpenStep::OpenDatabase => 3,
        OpenStep::Probe => 2,
        OpenStep::Audit => 1,
        _ => 0,
    }
}

/// What opening a vault comes to from a step on: the error, if any, what is on
/// disk then, and whether the vault is unlocked.
pub open spec fn opened_from(
    step: OpenStep,
    disk: DiskView,
    v: VaultState,
    key: Seq<u8>,
    at: Seq<char>,
    now: u64,
) -> (Option<Seq<char>>, DiskView, VaultState)
    decreases steps_left(step),
{
    if steps_left(step) == 0 {
        (None, disk, v.after_step(step, now))
    } else {
        match unlock_step(step, step_succeeds(disk, key, step)) {
            Some(next) => opened_from(
                next,
                disk_after(disk, step, at),
                v.after_step(step, now),
                key,
                at,
                now,
            ),
            None => (Some(step_error(step, Seq::empty())), disk, v),
        }
    }
}

/// What unlocking a vault with a key comes to: the error, if any, what is on
/// disk then, and whether the vault is unlocked.
pub open spec fn unlocking(
    disk: DiskView,
    v: VaultState,
    key: Seq<u8>,
    at: Seq<char>,
    now: u64,
) -> (Option<Seq<char>>, DiskView, VaultState) {
    if disk.salt is None {
        (Some(VaultError::NotInitialized.text()), disk, v)
    } else {
        opened_from(OpenStep::ReadSalt, disk, v, key, at, now)
    }
}

/// A vault that was made with the passphrase `p` is unlocked by `p` and by no
/// other passphrase that gives another key. `read` is what is read of the salt
/// file. Unlocked, it holds all rows that it held, and one more entry in the
/// audit log. Refused, it stays locked, and nothing on disk changes. Without a
/// salt file every passphrase is refused.
pub proof fn only_its_own_passphrase_unlocks(
    disk: DiskView,
    v: VaultState,
    p: Seq<char>,
    q: Seq<char>,
    salt: Seq<u8>,
    read: Seq<u8>,
    at: Seq<char>,
    now: u64,
)
    requires
        disk.salt == Some(outside::base64_of(salt)),
        disk.key == vault_key(p, salt),
        outside::base64_of(read) == text::trimmed(outside::base64_of(salt)),
        vault_key(p, salt) == vault_key(q, salt) ==> p == q,
        v.opened_at is None,
    ensures
        ({
            let (error, after, w) = unlocking(disk, v, vault_key(q, read), at, now);
            &&& error is None <==> q == p
            &&& q == p ==> {
                &&& w.opened_at == Some(now)
                &&& after == (DiskView {
                    rows: store::with_audit(disk.rows, "vault_unlock"@, None, at),
                    ..disk
                })
            }
            &&& q != p ==> {
                &&& error == Some("wrong passphrase"@)
                &&& after == disk
                &&& w == v
            }
        }),
        forall|key: Seq<u8>|
            (#[trigger] unlocking(DiskView { salt: None, ..disk }, v, key, at, now)) == (
                Some("vault not initialized"@),
                DiskView { salt: None, ..disk },
                v,
            ),
{
    salt_file_gives_back_the_salt(salt, read);
    reveal_with_fuel(opened_from, 5);
}

/// A vault that is unlocked locks by itself thirty minutes after the last
/// activity, and not before; activity at any time before puts it off; and
/// locking a locked vault changes nothing.
pub proof fn idle_vault_locks(v: VaultState, active: u64, now: u64)
    requires
        v.opened_at is Some,
        v.lock_timeout == DEFAULT_LOCK_TIMEOUT,
        active <= now,
    ensures
        (VaultState { last_activity: active, ..v }).is_due_to_lock(now) <==> now - active >= 30 * 60
            * SECOND,
        !(VaultState { last_activity: now, ..v }).is_due_to_lock(now),
        !(VaultState { opened_at: None, ..v }).is_due_to_lock(now),
        0 <= v.time_left(now) <= DEFAULT_LOCK_TIMEOUT,
        v.time_left(now) == 0 <==> v.is_due_to_lock(now),
{
}

/// How a key is derived: by Argon2id with 64 MiB of memory, three passes and four
/// lanes, to 32 bytes, from the bytes of the passphrase and all of the salt; and
/// how the database is told of it.
pub proof fn keys_are_derived_so(passphrase: Seq<char>, salt: Seq<u8>, key: Seq<u8>)
    ensures
        vault_key(passphrase, salt) == outside::argon2id(
            vstd::utf8::encode_utf8(passphrase),
            salt,
            65_536,
            3,
            4,
            32,
        ),
        SALT_LEN == 16,
        pragma_of(key) == "PRAGMA key = \"x'"@ + text::hex(key)
            + "'\"; PRAGMA cipher_page_size = 4096;"@,
{
}

/// Each error has its own words.
pub proof fn errors_have_these_words(m: String)
    ensures
        VaultError::AlreadyInitialized.text() == "vault already initialized"@,
        VaultError::NotInitialized.text() == "vault not initialized"@,
        VaultError::SaltNotBase64.text() == "vault.salt is not valid base64"@,
        VaultError::SaltWrongLength.text() == "vault.salt has wrong length"@,
        VaultError::Kdf.text() == "argon2 KDF failed"@,
        VaultError::Open.text() == "open vault db"@,
        VaultError::Migrate.text() == "run vault migrations"@,
        VaultError::WrongPassphrase.text() == "wrong passphrase"@,
        VaultError::Locked.text() == "vault locked"@,
        VaultError::AlreadyResolved.text() == "already resolved"@,
        VaultError::NotFound.text() == "not found"@,
        VaultError::NotPending.text() == "not pending or not found"@,
        VaultError::Other(m).text() == m@,
        step_error(OpenStep::OpenDatabase, m@) == "open vault db"@,
        step_error(OpenStep::Migrate, m@) == "run vault migrations"@,
        step_error(OpenStep::Probe, m@) == "wrong passphrase"@,
        step_error(OpenStep::CreateDir, m@) == m@,
        step_error(OpenStep::ReadSalt, m@) == m@,
        step_error(OpenStep::WriteSalt, m@) == m@,
{
}

/// Ages are told in whole seconds under a minute, in whole minutes under an hour,
/// and else in whole hours.
pub proof fn ages_are_told_in_one_unit(n: nat, part: nat)
    ensures
        n < 60 ==> age_text(n) == text::decimal(n) + seq!['s'],
        0 < n < 60 && part < 60 ==> age_text(n * 60 + part) == text::decimal(n) + seq!['m'],
        n > 0 && part < 3600 ==> age_text(n * 3600 + part) == text::decimal(n) + seq!['h'],
{
    reveal_strlit("s");
    reveal_strlit("m");
    reveal_strlit("h");
    assert("s"@ =~= seq!['s']);
    assert("m"@ =~= seq!['m']);
    assert("h"@ =~= seq!['h']);
    if part < 60 {
        assert((n * 60 + part) / 60 == n) by (nonlinear_arith)
            requires
                part < 60,
        ;
    }
    if part < 3600 {
        assert((n * 3600 + part) / 3600 == n) by (nonlinear_arith)
            requires
                part < 3600,
        ;
    }
}

/// The time that is left until the vault locks is what the timeout leaves after
/// the last activity; a clock that seems to have gone back counts as standing
/// still.
pub proof fn time_left_shrinks_with_idleness(v: VaultState, now: u64)
    ensures
        now >= v.last_activity && now - v.last_activity <= v.lock_timeout ==> v.time_left(now)
            == v.lock_timeout - (now - v.last_activity),
        now >= v.last_activity && now - v.last_activity > v.lock_timeout ==> v.time_left(now) == 0,
        now < v.last_activity ==> v.time_left(now) == v.lock_timeout,
        v.is_due_to_lock(now) <==> v.opened_at is Some && v.time_left(now) == 0,
        v.after_step(OpenStep::Done, now) == (VaultState {
            opened_at: Some(now),
            last_activity: now,
            ..v
        }),
        v.after_step(OpenStep::Audit, now) == v,
        v.after_step(OpenStep::Probe, now) == v,
        v.after_step(OpenStep::OpenDatabase, now) == v,
        v.after_step(OpenStep::ReadSalt, now) == v,
        v.after_step(OpenStep::CreateDir, now) == v,
        v.after_step(OpenStep::Migrate, now) == v,
        v.after_step(OpenStep::WriteSalt, now) == v,
        SECOND == 1000 * 1000 * 1000,
        DEFAULT_LOCK_TIMEOUT == 30 * 60 * SECOND,
{
}

/// Creating a vault comes to its end where each of the four steps before the
/// entry in the audit log succeeds, whatever comes of that entry; it fails as
/// soon as one of the four does.
pub proof fn creating_takes_five_steps(logged: bool)
    ensures
        init_path(Seq::empty()) == Some(OpenStep::CreateDir),
        init_path(seq![true]) == Some(OpenStep::OpenDatabase),
        init_path(seq![true, true]) == Some(OpenStep::Migrate),
        init_path(seq![true, true, true]) == Some(OpenStep::WriteSalt),
        init_path(seq![true, true, true, true]) == Some(OpenStep::Audit),
        init_path(seq![true, true, true, true, logged]) == Some(OpenStep::Done),
        init_path(seq![false]) is None,
        init_path(seq![true, false]) is None,
        init_path(seq![true, true, false]) is None,
        init_path(seq![true, true, true, false]) is None,
{
    reveal_with_fuel(init_path, 6);
    assert(seq![true].drop_last() =~= Seq::<bool>::empty());
    assert(seq![true, true].drop_last() =~= seq![true]);
    assert(seq![true, true, true].drop_last() =~= seq![true, true]);
    assert(seq![true, true, true, true].drop_last() =~= seq![true, true, true]);
    assert(seq![true, true, true, true, logged].drop_last() =~= seq![true, true, true, true]);
    assert(seq![false].drop_last() =~= Seq::<bool>::empty());
    assert(seq![true, false].drop_last() =~= seq![true]);
    assert(seq![true, true, false].drop_last() =~= seq![true, true]);
    assert(seq![true, true, true, false].drop_last() =~= seq![true, true, true]);
}

/// Opening a vault comes to its end where each of the three steps before the
/// entry in the audit log succeeds, whatever comes of that entry; it fails as
/// soon as one of the three does.
pub proof fn opening_takes_four_steps(logged: bool)
    ensures
        unlock_path(Seq::empty()) == Some(OpenStep::ReadSalt),
        unlock_path(seq![true]) == Some(OpenStep::OpenDatabase),
        unlock_path(seq![true, true]) == Some(OpenStep::Probe),
        unlock_path(seq![true, true, true]) == Some(OpenStep::Audit),
        unlock_path(seq![true, true, true, logged]) == Some(OpenStep::Done),
        unlock_path(seq![false]) is None,
        unlock_path(seq![true, false]) is None,
        unlock_path(seq![true, true, false]) is None,
{
    reveal_with_fuel(unlock_path, 5);
    assert(seq![true].drop_last() =~= Seq::<bool>::empty());
    assert(seq![true, true].drop_last() =~= seq![true]);
    assert(seq![true, true, true].drop_last() =~= seq![true, true]);
    assert(seq![true, true, true, logged].drop_last() =~= seq![true, true, true]);
    assert(seq![false].drop_last() =~= Seq::<bool>::empty());
    assert(seq![true, false].drop_last() =~= seq![true]);
    assert(seq![true, true, false].drop_last() =~= seq![true, true]);
}

} // verus!
