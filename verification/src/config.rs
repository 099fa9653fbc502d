use vstd::prelude::*;

use crate::error::{error_message, RelayError};
use crate::text::{ascii_lowercase, push_text, str_eq, to_ascii_lower, trim, trim_text};

verus! {

/// Where the relay listens.
#[derive(Debug, Clone)]
pub struct ServerConfig {
    pub bind: String,
}

/// The captcha check that guarded requests must pass.
#[derive(Debug, Clone)]
pub enum CaptchaConfig {
    Disabled,
    Turnstile(TurnstileConfig),
}

/// A Cloudflare Turnstile verifier.
#[derive(Debug, Clone)]
pub struct TurnstileConfig {
    pub verify_url: String,
    pub secret: String,
}

/// The fullnode that transactions are submitted to.
#[derive(Debug, Clone)]
pub struct UpstreamConfig {
    pub submit_url: String,
    pub request_timeout_ms: u64,
}

/// The key that sponsors transactions, and what it pays for gas.
#[derive(Debug, Clone)]
pub struct SponsorConfig {
    pub private_key_base64: String,
    pub gas_budget: u64,
    pub gas_price: u64,
}

/// The relay's configuration.
#[derive(Debug, Clone)]
pub struct AppConfig {
    pub server: ServerConfig,
    pub captcha: CaptchaConfig,
    pub upstream: UpstreamConfig,
    pub sponsor: SponsorConfig,
    pub forum_package_id: String,
}

/// The relay's settings as the environment gives them (`RELAY_` variables).
#[derive(Debug, Clone)]
pub struct EnvConfig {
    pub server_bind: String,
    pub upstream_submit_url: String,
    pub upstream_request_timeout_ms: u64,
    pub sponsor_private_key_base64: String,
    pub sponsor_gas_budget: u64,
    pub sponsor_gas_price: u64,
    pub captcha_provider: String,
    pub captcha_turnstile_verify_url: Option<String>,
    pub captcha_turnstile_secret: Option<String>,
    pub forum_package_id: String,
}

/// The captcha provider named by the environment: trimmed, any case.
pub open spec fn provider_name(raw: EnvConfig) -> Seq<char> {
    to_ascii_lower(trim(raw.captcha_provider@))
}

/// The configuration built from the environment's settings and the chosen
/// captcha check.
pub open spec fn config_with(raw: EnvConfig, captcha: CaptchaConfig) -> AppConfig {
    AppConfig {
        server: ServerConfig { bind: raw.server_bind },
        captcha,
        upstream: UpstreamConfig {
            submit_url: raw.upstream_submit_url,
            request_timeout_ms: raw.upstream_request_timeout_ms,
        },
        sponsor: SponsorConfig {
            private_key_base64: raw.sponsor_private_key_base64,
            gas_budget: raw.sponsor_gas_budget,
            gas_price: raw.sponsor_gas_price,
        },
        forum_package_id: raw.forum_package_id,
    }
}

/// Builds the relay's configuration from the environment's settings.
pub fn build_config(raw: EnvConfig) -> (r: Result<AppConfig, RelayError>)
    ensures
        provider_name(raw) == "disabled"@ ==> r == Ok::<AppConfig, RelayError>(
            config_with(raw, CaptchaConfig::Disabled),
        ),
        provider_name(raw) == "turnstile"@ ==> match (
            raw.captcha_turnstile_verify_url,
            raw.captcha_turnstile_secret,
        ) {
            (Some(verify_url), Some(secret)) => r == Ok::<AppConfig, RelayError>(
                config_with(
                    raw,
                    CaptchaConfig::Turnstile(TurnstileConfig { verify_url, secret }),
                ),
            ),
            (None, _) => r is Err && r->Err_0 is ConfigInvalid && error_message(r->Err_0)
                == "RELAY_CAPTCHA_TURNSTILE_VERIFY_URL is required when RELAY_CAPTCHA_PROVIDER=turnstile"@,
            (Some(_), None) => r is Err && r->Err_0 is ConfigInvalid && error_message(r->Err_0)
                == "RELAY_CAPTCHA_TURNSTILE_SECRET is required when RELAY_CAPTCHA_PROVIDER=turnstile"@,
        },
        provider_name(raw) != "disabled"@ && provider_name(raw) != "turnstile"@ ==> r is Err
            && r->Err_0 is ConfigInvalid && error_message(r->Err_0)
            == "unsupported RELAY_CAPTCHA_PROVIDER value: "@ + provider_name(raw),
{
    proof {
        reveal_strlit("disabled");
        reveal_strlit("turnstile");
        assert("disabled"@[0] != "turnstile"@[0]);
    }
    let trimmed = trim_text(raw.captcha_provider.as_str());
    let provider = ascii_lowercase(trimmed.as_str());
    let captcha = if str_eq(provider.as_str(), "disabled") {
        CaptchaConfig::Disabled
    } else if str_eq(provider.as_str(), "turnstile") {
        let verify_url = match raw.captcha_turnstile_verify_url {
            Some(v) => v,
            None => {
                return Err(
                    RelayError::ConfigInvalid(
                        "RELAY_CAPTCHA_TURNSTILE_VERIFY_URL is required when RELAY_CAPTCHA_PROVIDER=turnstile".to_string(),
                    ),
                );
            },
        };
        let secret = match raw.captcha_turnstile_secret {
            Some(s) => s,
            None => {
                return Err(
                    RelayError::ConfigInvalid(
                        "RELAY_CAPTCHA_TURNSTILE_SECRET is required when RELAY_CAPTCHA_PROVIDER=turnstile".to_string(),
                    ),
                );
            },
        };
        CaptchaConfig::Turnstile(TurnstileConfig { verify_url, secret })
    } else {
        let mut msg = "unsupported RELAY_CAPTCHA_PROVIDER value: ".to_string();
        push_text(&mut msg, provider.as_str());
        return Err(RelayError::ConfigInvalid(msg));
    };
    Ok(
        AppConfig {
            server: ServerConfig { bind: raw.server_bind },
            captcha,
            upstream: UpstreamConfig {
                submit_url: raw.upstream_submit_url,
                request_timeout_ms: raw.upstream_request_timeout_ms,
            },
            sponsor: SponsorConfig {
                private_key_base64: raw.sponsor_private_key_base64,
                gas_budget: raw.sponsor_gas_budget,
                gas_price: raw.sponsor_gas_price,
            },
            forum_package_id: raw.forum_package_id,
        },
    )
}

} // verus!
