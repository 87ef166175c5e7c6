//! The bearer-credential lifecycle shared by token-based providers: a
//! signing key and issuer identity are loaded once; `get_token` returns the
//! cached token while it is still valid and mints a fresh one — a signed
//! claim set with issue time, one-hour expiry, audience and issuer — the
//! moment the expiry instant has passed. A caller never receives a token it
//! can observe as already expired.

use vstd::prelude::*;
use crate::errors::Error;
use crate::text::json_escape;
use crate::text::lemma_dec_all_digits;
use crate::text::lemma_dec_injective;
use crate::text::spec_dec;
use crate::text::spec_is_digit_char;
use crate::text::spec_json_escape;
use crate::text::u64_to_dec;

verus! {

/// How long a minted token is valid, in seconds.
pub const TOKEN_VALIDITY_SECS: u64 = 3600;

/// The claim set signed at `now` for `issuer`: expiry one hour after issue
/// time, the synthesis API as audience, the issuer as both subject and
/// issuer.
pub open spec fn spec_claims(now: u64, issuer: Seq<char>) -> Seq<char> {
    "{\"exp\":"@ + spec_dec((now + 3600) as nat) + ",\"iat\":"@ + spec_dec(now as nat)
        + ",\"aud\":\"https://texttospeech.googleapis.com/\",\"iss\":\""@ + spec_json_escape(issuer)
        + "\",\"sub\":\""@ + spec_json_escape(issuer) + "\"}"@
}

/// Renders the claim set signed at `now` for `issuer`.
pub fn mint_claims(now: u64, issuer: &str) -> (r: String)
    requires
        now <= u64::MAX - 3600,
    ensures
        r@ == spec_claims(now, issuer@),
{
    let escaped = json_escape(issuer);
    let mut s = String::from_str("{\"exp\":");
    let exp = u64_to_dec(now + TOKEN_VALIDITY_SECS);
    s.append(exp.as_str());
    s.append(",\"iat\":");
    let iat = u64_to_dec(now);
    s.append(iat.as_str());
    s.append(",\"aud\":\"https://texttospeech.googleapis.com/\",\"iss\":\"");
    s.append(escaped.as_str());
    s.append("\",\"sub\":\"");
    s.append(escaped.as_str());
    s.append("\"}");
    s
}

/// The token that signing `claims` with `key_pem` yields, if the key parses
/// and signing succeeds; a function of key and claims alone.
pub uninterp spec fn spec_signed_token(key_pem: Seq<char>, claims: Seq<char>) -> Option<Seq<char>>;

/// Relies on jsonwebtoken::encode with RS256 (and EncodingKey::from_rsa_pem,
/// serde_json::from_str to shape its arguments): PKCS#1 v1.5 signing is
/// deterministic, so the token is a function of the key and the claims.
#[verifier::external_body]
fn sign_rs256(key_pem: &str, claims: &str) -> (r: Option<String>)
    ensures
        match r {
            Some(token) => spec_signed_token(key_pem@, claims@) == Some(token@),
            None => spec_signed_token(key_pem@, claims@) is None,
        },
{
    let key = match jsonwebtoken::EncodingKey::from_rsa_pem(key_pem.as_bytes()) {
        Ok(key) => key,
        Err(_) => return None,
    };
    let claims_value = match serde_json::from_str::<serde_json::Value>(claims) {
        Ok(value) => value,
        Err(_) => return None,
    };
    let mut header = jsonwebtoken::Header::new(jsonwebtoken::Algorithm::RS256);
    header.kid = Some(key_pem.to_owned());
    jsonwebtoken::encode(&header, &claims_value, &key).ok()
}

/// The credential manager: signing key and issuer loaded at startup, the
/// currently minted token and its expiry instant.
#[derive(Debug)]
pub struct CredentialManager {
    pub signing_key: String,
    pub issuer: String,
    pub token: String,
    pub expiry: u64,
}

impl CredentialManager {
    /// A manager that has minted nothing yet: the first `get_token` call
    /// always mints.
    pub fn new(signing_key: String, issuer: String) -> (r: CredentialManager)
        ensures
            r.signing_key@ == signing_key@,
            r.issuer@ == issuer@,
            r.expiry == 0,
    {
        CredentialManager { signing_key, issuer, token: String::new(), expiry: 0 }
    }

    /// Returns the cached token while `now` is before its expiry; otherwise
    /// mints a token over the claim set for `now`, stores it with expiry one
    /// hour ahead, and returns it. A signing failure leaves the state
    /// unchanged and surfaces as an upstream failure.
    pub fn get_token(&mut self, now: u64) -> (r: Result<String, Error>)
        requires
            now <= u64::MAX - 3600,
        ensures
            final(self).signing_key@ == old(self).signing_key@,
            final(self).issuer@ == old(self).issuer@,
            now < old(self).expiry ==> *final(self) == *old(self) && (r matches Ok(t) && t@ == old(
                self,
            ).token@),
            now >= old(self).expiry ==> match spec_signed_token(
                old(self).signing_key@,
                spec_claims(now, old(self).issuer@),
            ) {
                Some(token) => final(self).token@ == token && final(self).expiry == now + 3600 && (
                r matches Ok(t) && t@ == token),
                None => *final(self) == *old(self) && r matches Err(Error::UpstreamFailure(_)),
            },
    {
        if now < self.expiry {
            Ok(self.token.clone())
        } else {
            let claims = mint_claims(now, self.issuer.as_str());
            match sign_rs256(self.signing_key.as_str(), claims.as_str()) {
                Some(token) => {
                    self.token = token.clone();
                    self.expiry = now + TOKEN_VALIDITY_SECS;
                    Ok(token)
                },
                None => Err(
                    Error::UpstreamFailure(String::from_str("credential minting failed")),
                ),
            }
        }
    }
}

/// Credential refresh: the claim sets signed at two different instants are
/// different texts — a refresh at or after expiry never re-signs the old
/// claim set. (That the cached token is returned unchanged before expiry is
/// part of `get_token`'s contract.)
pub proof fn lemma_claims_distinct(t: u64, now: u64, issuer: Seq<char>)
    requires
        t != now,
        t <= u64::MAX - 3600,
        now <= u64::MAX - 3600,
    ensures
        spec_claims(t, issuer) != spec_claims(now, issuer),
{
    let p = "{\"exp\":"@;
    let d1 = spec_dec((t + 3600) as nat);
    let d2 = spec_dec((now + 3600) as nat);
    let r1 = ",\"iat\":"@ + spec_dec(t as nat)
        + ",\"aud\":\"https://texttospeech.googleapis.com/\",\"iss\":\""@ + spec_json_escape(issuer)
        + "\",\"sub\":\""@ + spec_json_escape(issuer) + "\"}"@;
    let r2 = ",\"iat\":"@ + spec_dec(now as nat)
        + ",\"aud\":\"https://texttospeech.googleapis.com/\",\"iss\":\""@ + spec_json_escape(issuer)
        + "\",\"sub\":\""@ + spec_json_escape(issuer) + "\"}"@;
    assert(spec_claims(t, issuer) == p + d1 + r1);
    assert(spec_claims(now, issuer) == p + d2 + r2);
    if spec_claims(t, issuer) == spec_claims(now, issuer) {
        let n = p.len() as int;
        lemma_dec_all_digits((t + 3600) as nat);
        lemma_dec_all_digits((now + 3600) as nat);
        proof_comma_not_digit();
        if d1.len() == d2.len() {
            assert(d1 =~= d2) by {
                assert forall|i: int| 0 <= i < d1.len() implies #[trigger] d1[i] == d2[i] by {
                    assert((p + d1 + r1)[n + i] == d1[i]);
                    assert((p + d2 + r2)[n + i] == d2[i]);
                }
            }
            lemma_dec_injective((t + 3600) as nat, (now + 3600) as nat);
        } else if d1.len() < d2.len() {
            let k = d1.len() as int;
            assert((p + d1 + r1)[n + k] == r1[0]);
            assert((p + d2 + r2)[n + k] == d2[k]);
            assert(r1[0] == ',') by {
                reveal_strlit(",\"iat\":");
            }
            assert(spec_is_digit_char(d2[k]));
        } else {
            let k = d2.len() as int;
            assert((p + d2 + r2)[n + k] == r2[0]);
            assert((p + d1 + r1)[n + k] == d1[k]);
            assert(r2[0] == ',') by {
                reveal_strlit(",\"iat\":");
            }
            assert(spec_is_digit_char(d1[k]));
        }
    }
}

proof fn proof_comma_not_digit()
    ensures
        !spec_is_digit_char(','),
{
}

} // verus!
