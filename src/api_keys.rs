//! API keys. A token reads `prefix_v<version>_<data>`, where `data` is the
//! lowercase unpadded base32 of the key id (16 bytes), a 256-bit secret and,
//! optionally, the CRC-32 of those 48 bytes (little-endian). The stored key
//! keeps only a BLAKE3 hash of id, version, organization and secret.

use vstd::prelude::*;

use crate::matching::same_text;
use crate::text::{
    find_char, find_from, i16_of_text, lemma_find_from_bounds, lower_of, parse_i16,
    push_signed_decimal, signed_decimal_spec, to_lowercase, to_uppercase, upper_of,
};
use crate::uuid::{format_spec, variant_of, version_of, Uuid128};

verus! {

/// Bytes of a key's secret.
pub const API_KEY_SECRET_SIZE: usize = 32;

/// Bytes of a token's checksum.
pub const CHECKSUM_SIZE: usize = 4;

/// Key id, secret and checksum.
pub const TOKEN_DATA_SIZE: usize = 16 + API_KEY_SECRET_SIZE + CHECKSUM_SIZE;

#[derive(Debug, Clone)]
pub struct ApiKeyConfig {
    pub prefix: String,
    pub version: i16,
    pub include_checksum: bool,
}

impl Default for ApiKeyConfig {
    /// Prefix `elizielx`, version 1, with a checksum.
    fn default() -> (r: Self)
        ensures
            r.prefix@ == "elizielx"@,
            r.version == 1,
            r.include_checksum,
    {
        ApiKeyConfig { prefix: String::from_str("elizielx"), version: 1, include_checksum: true }
    }
}

#[derive(Debug, Clone, Copy, PartialEq, Eq)]
pub enum ApiKeyError {
    InvalidPrefix,
    InvalidVersion,
    InvalidFormat,
    InvalidUuid,
    InvalidChecksum,
    Expired,
    InvalidHash,
    DecodingError,
}

/// A point in time: whole seconds since 1970 (UTC) and the nanoseconds
/// after them.
#[derive(Debug, Clone, Copy, PartialEq, Eq)]
pub struct UtcTime {
    pub secs: i64,
    pub nanos: u32,
}

/// Whether `a` comes after `b`.
pub open spec fn is_after(a: UtcTime, b: UtcTime) -> bool {
    a.secs > b.secs || (a.secs == b.secs && a.nanos > b.nanos)
}

/// Whether `a` comes after `b`.
pub fn after(a: UtcTime, b: UtcTime) -> (r: bool)
    ensures
        r == is_after(a, b),
{
    a.secs > b.secs || (a.secs == b.secs && a.nanos > b.nanos)
}

/// Relies on `chrono::Utc::now`: the current time; nothing is promised of it.
#[verifier::external_body]
fn now() -> UtcTime {
    let t = chrono::Utc::now();
    UtcTime { secs: t.timestamp(), nanos: t.timestamp_subsec_nanos() }
}

/// Relies on `uuid::Uuid::now_v7`: a new identifier of version 7 with the
/// RFC 4122 variant.
#[verifier::external_body]
fn new_v7_id() -> (r: Uuid128)
    ensures
        version_of(r@) == 7,
        variant_of(r@) == 0x80,
{
    Uuid128::from_bytes(*uuid::Uuid::now_v7().as_bytes())
}

/// Relies on `getrandom::fill`: 32 bytes from the system's random source;
/// nothing is promised of them. Fails, as the caller always did, when the
/// source is unavailable.
#[verifier::external_body]
fn random_secret() -> [u8; 32] {
    let mut secret = [0u8; 32];
    getrandom::fill(&mut secret).expect("Failed to generate random bytes");
    secret
}

/// Relies on `zeroize::Zeroize` for byte arrays: every byte becomes zero.
#[verifier::external_body]
fn wipe(secret: &mut [u8; 32])
    ensures
        final(secret)@ == Seq::new(32, |i: int| 0u8),
{
    zeroize::Zeroize::zeroize(secret)
}

/// Relies on `subtle::ConstantTimeEq` for slices: equal lengths and equal
/// bytes, compared in constant time.
#[verifier::external_body]
fn constant_time_eq(a: &[u8], b: &[u8]) -> (r: bool)
    ensures
        r == (a@ == b@),
{
    subtle::ConstantTimeEq::ct_eq(a, b).into()
}

/// The BLAKE3 digest of `data`.
pub uninterp spec fn blake3_of(data: Seq<u8>) -> Seq<u8>;

/// Relies on `blake3::hash`: the 32-byte digest, a function of the input
/// alone.
#[verifier::external_body]
fn blake3_digest(data: &[u8]) -> (r: [u8; 32])
    ensures
        r@ == blake3_of(data@),
{
    *blake3::hash(data).as_bytes()
}

/// The CRC-32 of `data`.
pub uninterp spec fn crc32_of(data: Seq<u8>) -> u32;

/// Relies on `crc32fast::hash`: the CRC-32 of the bytes, a function of them
/// alone.
#[verifier::external_body]
fn calculate_checksum(data: &[u8]) -> (r: u32)
    ensures
        r == crc32_of(data@),
{
    crc32fast::hash(data)
}

/// The unpadded RFC 4648 base32 text of `data`.
pub uninterp spec fn base32_of(data: Seq<u8>) -> Seq<char>;

/// Relies on `base32::encode` with the unpadded RFC 4648 alphabet: a
/// function of the bytes alone.
#[verifier::external_body]
fn base32_encode(data: &[u8]) -> (r: String)
    ensures
        r@ == base32_of(data@),
{
    base32::encode(base32::Alphabet::Rfc4648 { padding: false }, data)
}

/// The bytes of an unpadded RFC 4648 base32 text, if it is one.
pub uninterp spec fn base32_decoded(text: Seq<char>) -> Option<Seq<u8>>;

/// Relies on `base32::decode` with the unpadded RFC 4648 alphabet: a
/// function of the text alone.
#[verifier::external_body]
fn base32_decode(text: &str) -> (r: Option<Vec<u8>>)
    ensures
        match base32_decoded(text@) {
            Some(b) => r is Some && r->Some_0@ == b,
            None => r is None,
        },
{
    base32::decode(base32::Alphabet::Rfc4648 { padding: false }, text)
}

/// The two little-endian bytes of `v`.
pub open spec fn le_i16(v: i16) -> Seq<u8> {
    seq![(v as u16) as u8, ((v as u16) >> 8u16) as u8]
}

/// The four little-endian bytes of `v`.
pub open spec fn le_u32(v: u32) -> Seq<u8> {
    seq![v as u8, (v >> 8u32) as u8, (v >> 16u32) as u8, (v >> 24u32) as u8]
}

/// The `u32` of four little-endian bytes.
pub open spec fn u32_of_le(b: Seq<u8>) -> u32 {
    (b[0] as u32) | ((b[1] as u32) << 8u32) | ((b[2] as u32) << 16u32) | ((b[3] as u32) << 24u32)
}

/// What is hashed for a key: id, version (little-endian), organization,
/// secret.
pub open spec fn hash_input(id: Seq<u8>, version: i16, org: Seq<u8>, secret: Seq<u8>) -> Seq<u8> {
    id + le_i16(version) + org + secret
}

/// The bytes a token carries: id and secret, then the checksum if asked for.
pub open spec fn token_data(id: Seq<u8>, secret: Seq<u8>, include_checksum: bool) -> Seq<u8> {
    if include_checksum {
        id + secret + le_u32(crc32_of(id + secret))
    } else {
        id + secret
    }
}

/// The token text `prefix_v<version>_<data>`.
pub open spec fn token_text(prefix: Seq<char>, version: i16, data: Seq<u8>) -> Seq<char> {
    prefix + seq!['_', 'v'] + signed_decimal_spec(version as int) + seq!['_'] + lower_of(
        base32_of(data),
    )
}

/// What reading a token gives: prefix, version, id, secret and checksum.
pub open spec fn parse_token_spec(t: Seq<char>) -> Result<
    (Seq<char>, i16, Seq<u8>, Seq<u8>, Option<u32>),
    ApiKeyError,
> {
    let i1 = find_from(t, '_', 0);
    let i2 = find_from(t, '_', i1 + 1);
    if i1 >= t.len() || i2 >= t.len() {
        Err(ApiKeyError::InvalidFormat)
    } else {
        let vs = t.subrange(i1 + 1, i2);
        if vs.len() == 0 || vs[0] != 'v' {
            Err(ApiKeyError::InvalidVersion)
        } else {
            match i16_of_text(vs.drop_first()) {
                None => Err(ApiKeyError::InvalidVersion),
                Some(version) => match base32_decoded(upper_of(t.subrange(i2 + 1, t.len() as int))) {
                    None => Err(ApiKeyError::DecodingError),
                    Some(d) => if d.len() != 48 && d.len() != 52 {
                        Err(ApiKeyError::InvalidFormat)
                    } else if d.len() == 52 && u32_of_le(d.subrange(48, 52)) != crc32_of(
                        d.subrange(0, 48),
                    ) {
                        Err(ApiKeyError::InvalidChecksum)
                    } else {
                        Ok(
                            (
                                t.subrange(0, i1),
                                version,
                                d.subrange(0, 16),
                                d.subrange(16, 48),
                                if d.len() == 52 {
                                    Some(u32_of_le(d.subrange(48, 52)))
                                } else {
                                    None
                                },
                            ),
                        )
                    },
                },
            }
        }
    }
}

/// A token taken apart.
#[derive(Debug)]
pub struct ParsedToken {
    pub prefix: String,
    pub version: i16,
    pub uuid: Uuid128,
    pub secret: [u8; 32],
    pub checksum: Option<u32>,
}

impl Drop for ParsedToken {
    /// Relies on `zeroize::Zeroize` for byte arrays: wipes the secret.
    #[verifier::external_body]
    fn drop(&mut self)
        opens_invariants none
        no_unwind
    {
        zeroize::Zeroize::zeroize(&mut self.secret)
    }
}

/// The BLAKE3 hash of id, version, organization and secret.
fn hash_api_key(api_key_id: Uuid128, version: i16, organization_id: Uuid128, secret: &[u8]) -> (r: [u8; 32])
    ensures
        r@ == blake3_of(hash_input(api_key_id@, version, organization_id@, secret@)),
{
    let mut input: Vec<u8> = Vec::new();
    push_all(&mut input, api_key_id.bytes.as_slice());
    let v = version as u16;
    input.push(v as u8);
    input.push((v >> 8u16) as u8);
    push_all(&mut input, organization_id.bytes.as_slice());
    push_all(&mut input, secret);
    assert(input@ =~= hash_input(api_key_id@, version, organization_id@, secret@));
    blake3_digest(input.as_slice())
}

/// Appends `b` to `out`.
fn push_all(out: &mut Vec<u8>, b: &[u8])
    ensures
        final(out)@ == old(out)@ + b@,
{
    let mut i: usize = 0;
    while i < b.len()
        invariant
            i <= b@.len(),
            out@ == old(out)@ + b@.take(i as int),
        decreases b@.len() - i,
    {
        out.push(b[i]);
        assert(b@.take(i + 1) =~= b@.take(i as int).push(b@[i as int]));
        i = i + 1;
    }
    assert(b@.take(b@.len() as int) =~= b@);
}

/// Reads a token `prefix_v<version>_<data>`. The data, uppercased, must be
/// base32 of 48 bytes, or of 52 whose last four are the CRC-32 of the rest.
pub fn parse_token(token: &str) -> (r: Result<ParsedToken, ApiKeyError>)
    ensures
        match parse_token_spec(token@) {
            Ok(m) => r matches Ok(p) && p.prefix@ == m.0 && p.version == m.1 && p.uuid@ == m.2
                && p.secret@ == m.3 && p.checksum == m.4,
            Err(e) => r == Err::<ParsedToken, ApiKeyError>(e),
        },
{
    let ghost t = token@;
    let n = token.unicode_len();
    let i1 = find_char(token, '_', 0);
    proof {
        lemma_find_from_bounds(t, '_', 0);
    }
    if i1 >= n {
        return Err(ApiKeyError::InvalidFormat);
    }
    let i2 = find_char(token, '_', i1 + 1);
    proof {
        lemma_find_from_bounds(t, '_', i1 + 1);
    }
    if i2 >= n {
        return Err(ApiKeyError::InvalidFormat);
    }
    let prefix = String::from_str(token.substring_char(0, i1));
    let version_str = token.substring_char(i1 + 1, i2);
    let vn = version_str.unicode_len();
    if vn == 0 || version_str.get_char(0) != 'v' {
        return Err(ApiKeyError::InvalidVersion);
    }
    let digits = version_str.substring_char(1, vn);
    assert(digits@ =~= version_str@.drop_first());
    let version = match parse_i16(digits) {
        Some(v) => v,
        None => {
            return Err(ApiKeyError::InvalidVersion);
        },
    };
    let upper = to_uppercase(token.substring_char(i2 + 1, n));
    let decoded = match base32_decode(upper.as_str()) {
        Some(d) => d,
        None => {
            return Err(ApiKeyError::DecodingError);
        },
    };
    let len = decoded.len();
    if len != 48 && len != TOKEN_DATA_SIZE {
        return Err(ApiKeyError::InvalidFormat);
    }
    let mut id = [0u8; 16];
    let mut i: usize = 0;
    while i < 16
        invariant
            decoded@.len() == len >= 48,
            i <= 16,
            forall|k: int| 0 <= k < i ==> #[trigger] id@[k] == decoded@[k],
        decreases 16 - i,
    {
        id[i] = decoded[i];
        i = i + 1;
    }
    let mut secret = [0u8; 32];
    let mut i: usize = 0;
    while i < 32
        invariant
            decoded@.len() == len >= 48,
            i <= 32,
            forall|k: int| 0 <= k < i ==> #[trigger] secret@[k] == decoded@[16 + k],
        decreases 32 - i,
    {
        secret[i] = decoded[16 + i];
        i = i + 1;
    }
    assert(id@ =~= decoded@.subrange(0, 16));
    assert(secret@ =~= decoded@.subrange(16, 48));
    let checksum = if len == TOKEN_DATA_SIZE {
        let stored = (decoded[48] as u32) | ((decoded[49] as u32) << 8u32) | ((decoded[50] as u32)
            << 16u32) | ((decoded[51] as u32) << 24u32);
        let computed = calculate_checksum(vstd::slice::slice_subrange(decoded.as_slice(), 0, 48));
        assert(stored == u32_of_le(decoded@.subrange(48, 52)));
        if stored != computed {
            return Err(ApiKeyError::InvalidChecksum);
        }
        Some(stored)
    } else {
        None
    };
    Ok(ParsedToken { prefix, version, uuid: Uuid128::from_bytes(id), secret, checksum })
}

#[derive(Debug, Clone)]
pub struct ApiKey {
    pub id: String,
    pub created_at: UtcTime,
    pub updated_at: UtcTime,
    pub name: String,
    pub expires_at: Option<UtcTime>,
    pub organization_id: Uuid128,
    pub version: i16,
    pub secret_hash: [u8; 32],
    pub config: ApiKeyConfig,
}

#[derive(Debug, Clone)]
pub struct CreateApiKeyInput {
    pub organization_id: Uuid128,
    pub name: String,
    pub expires_at: Option<UtcTime>,
    pub config: Option<ApiKeyConfig>,
}

#[derive(Debug, Clone)]
pub struct ApiKeyWithToken {
    pub api_key: ApiKey,
    pub token: String,
}

/// Prefix, version and checksum choice of an optional configuration, the
/// default when there is none.
pub open spec fn config_model(c: Option<ApiKeyConfig>) -> (Seq<char>, i16, bool) {
    match c {
        Some(c) => (c.prefix@, c.version, c.include_checksum),
        None => ("elizielx"@, 1, true),
    }
}

/// The key and token that `generate` makes from id `id`, secret `secret`
/// and time `at`.
pub open spec fn generated(
    input: CreateApiKeyInput,
    id: Seq<u8>,
    secret: Seq<u8>,
    at: UtcTime,
    r: ApiKeyWithToken,
) -> bool {
    let (prefix, version, checksum) = config_model(input.config);
    &&& r.token@ == token_text(prefix, version, token_data(id, secret, checksum))
    &&& r.api_key.id@ == format_spec(id)
    &&& r.api_key.created_at == at
    &&& r.api_key.updated_at == at
    &&& r.api_key.name@ == input.name@
    &&& r.api_key.expires_at == input.expires_at
    &&& r.api_key.organization_id == input.organization_id
    &&& r.api_key.version == version
    &&& r.api_key.secret_hash@ == blake3_of(hash_input(id, version, input.organization_id@, secret))
    &&& r.api_key.config.prefix@ == prefix
    &&& r.api_key.config.version == version
    &&& r.api_key.config.include_checksum == checksum
}

/// Whether `key` has an expiry time and `at` is after it.
pub open spec fn expired_at(key: ApiKey, at: UtcTime) -> bool {
    match key.expires_at {
        Some(e) => is_after(at, e),
        None => false,
    }
}

/// What checking `token` against `key` at time `at` gives.
pub open spec fn verify_spec(key: ApiKey, t: Seq<char>, at: UtcTime) -> Result<bool, ApiKeyError> {
    match parse_token_spec(t) {
        Err(e) => Err(e),
        Ok(m) => if m.0 != key.config.prefix@ {
            Err(ApiKeyError::InvalidPrefix)
        } else if m.1 != key.version {
            Err(ApiKeyError::InvalidVersion)
        } else if format_spec(m.2) != key.id@ {
            Ok(false)
        } else if expired_at(key, at) {
            Err(ApiKeyError::Expired)
        } else {
            Ok(blake3_of(hash_input(m.2, key.version, key.organization_id@, m.3))
                == key.secret_hash@)
        },
    }
}

impl ApiKeyError {
    /// A sentence for the error.
    pub fn message(&self) -> (r: String)
        ensures
            r@ == match *self {
                ApiKeyError::InvalidPrefix => "Invalid API key prefix"@,
                ApiKeyError::InvalidVersion => "Invalid API key version"@,
                ApiKeyError::InvalidFormat => "Invalid API key format"@,
                ApiKeyError::InvalidUuid => "Invalid UUID in token"@,
                ApiKeyError::InvalidChecksum => "Invalid checksum"@,
                ApiKeyError::Expired => "API key has expired"@,
                ApiKeyError::InvalidHash => "Invalid API key hash"@,
                ApiKeyError::DecodingError => "Failed to decode token"@,
            },
    {
        match self {
            ApiKeyError::InvalidPrefix => String::from_str("Invalid API key prefix"),
            ApiKeyError::InvalidVersion => String::from_str("Invalid API key version"),
            ApiKeyError::InvalidFormat => String::from_str("Invalid API key format"),
            ApiKeyError::InvalidUuid => String::from_str("Invalid UUID in token"),
            ApiKeyError::InvalidChecksum => String::from_str("Invalid checksum"),
            ApiKeyError::Expired => String::from_str("API key has expired"),
            ApiKeyError::InvalidHash => String::from_str("Invalid API key hash"),
            ApiKeyError::DecodingError => String::from_str("Failed to decode token"),
        }
    }
}

impl ApiKey {
    /// Makes a key and its token from the id `api_key_id`, the secret
    /// `secret` and the time `at`.
    pub fn generate_with(input: CreateApiKeyInput, api_key_id: Uuid128, secret: [u8; 32], at: UtcTime) -> (r: ApiKeyWithToken)
        ensures
            generated(input, api_key_id@, secret@, at, r),
    {
        let ghost input0 = input;
        let config = match input.config {
            Some(c) => c,
            None => ApiKeyConfig::default(),
        };
        proof {
            reveal_strlit("elizielx");
        }
        let hash = hash_api_key(api_key_id, config.version, input.organization_id, secret.as_slice());

        let mut data: Vec<u8> = Vec::new();
        push_all(&mut data, api_key_id.bytes.as_slice());
        push_all(&mut data, secret.as_slice());
        let ghost plain = data@;
        if config.include_checksum {
            let checksum = calculate_checksum(data.as_slice());
            data.push(checksum as u8);
            data.push((checksum >> 8u32) as u8);
            data.push((checksum >> 16u32) as u8);
            data.push((checksum >> 24u32) as u8);
            assert(data@ =~= plain + le_u32(checksum));
        }
        assert(data@ =~= token_data(api_key_id@, secret@, config.include_checksum));

        let encoded = base32_encode(data.as_slice());
        let encoded = to_lowercase(encoded.as_str());
        let mut token = String::new();
        token.append(config.prefix.as_str());
        token.append("_v");
        push_signed_decimal(&mut token, config.version as i64);
        token.append("_");
        token.append(encoded.as_str());
        proof {
            reveal_strlit("_v");
            reveal_strlit("_");
        }
        assert(token@ =~= token_text(config.prefix@, config.version, data@));

        let api_key = ApiKey {
            id: api_key_id.format(),
            created_at: at,
            updated_at: at,
            name: input.name,
            expires_at: input.expires_at,
            version: config.version,
            secret_hash: hash,
            organization_id: input.organization_id,
            config,
        };
        ApiKeyWithToken { api_key, token }
    }

    /// Makes a key with a new version-7 id and a fresh random secret, and
    /// its token; the secret is wiped afterwards and only its hash kept.
    pub fn generate(input: CreateApiKeyInput) -> (r: ApiKeyWithToken)
        ensures
            exists|id: Seq<u8>, secret: Seq<u8>, at: UtcTime|
                id.len() == 16 && secret.len() == 32 && version_of(id) == 7 && #[trigger] generated(
                    input,
                    id,
                    secret,
                    at,
                    r,
                ),
    {
        let api_key_id = new_v7_id();
        let mut secret = random_secret();
        let at = now();
        let r = ApiKey::generate_with(input, api_key_id, secret, at);
        let ghost s = secret@;
        wipe(&mut secret);
        assert(generated(input, api_key_id@, s, at, r));
        r
    }

    /// Checks `token` against the key at time `at`: its prefix and version
    /// must match (else an error), its id must be the key's (else `false`),
    /// the key must not have expired (else an error); then whether the hash
    /// of its secret is the key's.
    pub fn verify_at(&self, token: &str, at: UtcTime) -> (r: Result<bool, ApiKeyError>)
        ensures
            r == verify_spec(*self, token@, at),
    {
        let parsed = match parse_token(token) {
            Ok(p) => p,
            Err(e) => {
                return Err(e);
            },
        };
        if !same_text(parsed.prefix.as_str(), self.config.prefix.as_str()) {
            return Err(ApiKeyError::InvalidPrefix);
        }
        if parsed.version != self.version {
            return Err(ApiKeyError::InvalidVersion);
        }
        let parsed_id = parsed.uuid.format();
        if !same_text(parsed_id.as_str(), self.id.as_str()) {
            return Ok(false);
        }
        match self.expires_at {
            Some(expiry) => {
                if after(at, expiry) {
                    return Err(ApiKeyError::Expired);
                }
            },
            None => {},
        }
        let computed = hash_api_key(parsed.uuid, self.version, self.organization_id, parsed.secret.as_slice());
        Ok(constant_time_eq(computed.as_slice(), self.secret_hash.as_slice()))
    }

    /// `verify_at` the current time.
    pub fn verify(&self, token: &str) -> (r: Result<bool, ApiKeyError>)
        ensures
            exists|at: UtcTime| r == #[trigger] verify_spec(*self, token@, at),
    {
        let at = now();
        self.verify_at(token, at)
    }

    /// Sets the name and the expiry that are given, and `updated_at` to `at`.
    pub fn update_at(&mut self, name: Option<String>, expires_at: Option<Option<UtcTime>>, at: UtcTime)
        ensures
            final(self).name@ == match name {
                Some(n) => n@,
                None => old(self).name@,
            },
            final(self).expires_at == match expires_at {
                Some(e) => e,
                None => old(self).expires_at,
            },
            final(self).updated_at == at,
            final(self).id == old(self).id,
            final(self).created_at == old(self).created_at,
            final(self).organization_id == old(self).organization_id,
            final(self).version == old(self).version,
            final(self).secret_hash == old(self).secret_hash,
            final(self).config == old(self).config,
    {
        match name {
            Some(new_name) => {
                self.name = new_name;
            },
            None => {},
        }
        match expires_at {
            Some(new_expiry) => {
                self.expires_at = new_expiry;
            },
            None => {},
        }
        self.updated_at = at;
    }

    /// `update_at` the current time.
    pub fn update(&mut self, name: Option<String>, expires_at: Option<Option<UtcTime>>)
        ensures
            final(self).name@ == match name {
                Some(n) => n@,
                None => old(self).name@,
            },
            final(self).expires_at == match expires_at {
                Some(e) => e,
                None => old(self).expires_at,
            },
            final(self).id == old(self).id,
            final(self).created_at == old(self).created_at,
            final(self).organization_id == old(self).organization_id,
            final(self).version == old(self).version,
            final(self).secret_hash == old(self).secret_hash,
            final(self).config == old(self).config,
    {
        let at = now();
        self.update_at(name, expires_at, at);
    }

    /// Whether the key has an expiry time and `at` is after it.
    pub fn is_expired_at(&self, at: UtcTime) -> (r: bool)
        ensures
            r == expired_at(*self, at),
    {
        match self.expires_at {
            Some(expiry) => after(at, expiry),
            None => false,
        }
    }

    /// `is_expired_at` the current time.
    pub fn is_expired(&self) -> (r: bool)
        ensures
            exists|at: UtcTime| r == #[trigger] expired_at(*self, at),
    {
        let at = now();
        self.is_expired_at(at)
    }

    /// `ApiKey(id=<id>, name=<name>)`, without the hash.
    pub fn redacted(&self) -> (r: String)
        ensures
            r@ == "ApiKey(id="@ + self.id@ + ", name="@ + self.name@ + ")"@,
    {
        let mut out = String::from_str("ApiKey(id=");
        out.append(self.id.as_str());
        out.append(", name=");
        out.append(self.name.as_str());
        out.append(")");
        out
    }
}

/// `ApiKey::generate`.
pub fn generate_api_key(input: CreateApiKeyInput) -> (r: ApiKeyWithToken)
    ensures
        exists|id: Seq<u8>, secret: Seq<u8>, at: UtcTime|
            id.len() == 16 && secret.len() == 32 && version_of(id) == 7 && #[trigger] generated(
                input,
                id,
                secret,
                at,
                r,
            ),
{
    ApiKey::generate(input)
}

/// Whether `token` checks out against `api_key` now; any error counts as no.
pub fn verify_api_key(api_key: &ApiKey, token: &str) -> (r: bool)
    ensures
        exists|at: UtcTime| r == (#[trigger] verify_spec(*api_key, token@, at) == Ok::<bool, ApiKeyError>(true)),
{
    match api_key.verify(token) {
        Ok(valid) => valid,
        Err(_) => false,
    }
}

} // verus!
