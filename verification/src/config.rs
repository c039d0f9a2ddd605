//! Startup configuration: decimal parsing of the numeric settings and
//! validation of the required ones.  A missing required setting is the
//! only fatal error of the whole process.

use vstd::prelude::*;
use vstd::string::*;
use crate::listing::{digit_val, is_digit};

verus! {

/// Every character is a decimal digit.
pub open spec fn all_digits(s: Seq<char>) -> bool {
    forall|j: int| 0 <= j < s.len() ==> is_digit(#[trigger] s[j])
}

/// The value of a decimal digit string.
pub open spec fn dec_value(s: Seq<char>) -> nat
    decreases s.len(),
{
    if s.len() == 0 {
        0
    } else {
        dec_value(s.drop_last()) * 10 + digit_val(s.last()) as nat
    }
}

/// A prefix of a digit string is worth no more than the whole.
proof fn lemma_dec_value_prefix_le(s: Seq<char>, i: int)
    requires
        0 <= i <= s.len(),
    ensures
        dec_value(s.subrange(0, i)) <= dec_value(s),
    decreases s.len(),
{
    if i == s.len() {
        assert(s.subrange(0, i) =~= s);
    } else {
        assert(s.subrange(0, i) =~= s.drop_last().subrange(0, i));
        lemma_dec_value_prefix_le(s.drop_last(), i);
    }
}

/// An optional leading plus sign is not part of the digits.
pub open spec fn strip_plus(s: Seq<char>) -> Seq<char> {
    if s.len() > 0 && s[0] == '+' {
        s.drop_first()
    } else {
        s
    }
}

/// An optional leading plus, then a nonempty run of digits whose value
/// fits in a `u64`.
pub open spec fn parses_u64(s: Seq<char>) -> bool {
    strip_plus(s).len() > 0 && all_digits(strip_plus(s)) && dec_value(strip_plus(s)) <= u64::MAX
}

/// An optional leading plus, then a nonempty run of digits whose value
/// fits in a `usize`.
pub open spec fn parses_usize(s: Seq<char>) -> bool {
    strip_plus(s).len() > 0 && all_digits(strip_plus(s)) && dec_value(strip_plus(s))
        <= usize::MAX
}

/// Parses a decimal `u64`: an optional leading plus, then a nonempty
/// run of digits whose value fits.
pub fn parse_u64(s: &str) -> (r: Option<u64>)
    ensures
        r is Some <==> parses_u64(s@),
        r matches Some(v) ==> v == dec_value(strip_plus(s@)),
{
    let n = s.unicode_len();
    let start: usize = if n > 0 && s.get_char(0) == '+' {
        1
    } else {
        0
    };
    let ghost t = strip_plus(s@);
    proof {
        assert(t =~= s@.subrange(start as int, n as int));
    }
    if start >= n {
        return None;
    }
    let mut acc: u64 = 0;
    let mut i: usize = start;
    while i < n
        invariant
            n == s@.len(),
            start <= i <= n,
            t == strip_plus(s@),
            t == s@.subrange(start as int, n as int),
            forall|j: int| start <= j < i ==> is_digit(#[trigger] s@[j]),
            acc == dec_value(s@.subrange(start as int, i as int)),
        decreases n - i,
    {
        let ghost pre = s@.subrange(start as int, i as int);
        let c = s.get_char(i);
        let v = c as u32;
        if !(48 <= v && v <= 57) {
            assert(t[i - start] == s@[i as int]);
            return None;
        }
        let d = (v - 48) as u64;
        proof {
            assert(s@.subrange(start as int, i + 1).drop_last() =~= pre);
            assert(s@.subrange(start as int, i + 1).last() == s@[i as int]);
        }
        let next = match acc.checked_mul(10) {
            Some(m) => m.checked_add(d),
            None => None,
        };
        match next {
            Some(x) => {
                acc = x;
            },
            None => {
                proof {
                    assert(dec_value(s@.subrange(start as int, i + 1)) > u64::MAX);
                    assert(s@.subrange(start as int, i + 1) =~= t.subrange(0, i + 1 - start));
                    lemma_dec_value_prefix_le(t, i + 1 - start);
                }
                return None;
            },
        }
        i = i + 1;
    }
    proof {
        assert(s@.subrange(start as int, n as int) =~= t);
        assert forall|j: int| 0 <= j < t.len() implies is_digit(t[j]) by {
            assert(t[j] == s@[j + start]);
        }
    }
    Some(acc)
}

/// Parses a decimal `usize`: an optional leading plus, then a nonempty
/// run of digits whose value fits.
pub fn parse_usize(s: &str) -> (r: Option<usize>)
    ensures
        r is Some <==> parses_usize(s@),
        r matches Some(v) ==> v == dec_value(strip_plus(s@)),
{
    match parse_u64(s) {
        Some(v) => {
            if v <= usize::MAX as u64 {
                Some(v as usize)
            } else {
                None
            }
        },
        None => None,
    }
}

/// What reading one environment setting can yield.
pub enum EnvValue {
    /// The setting is present, with its text.
    Present(String),
    /// The setting is absent.
    Missing,
    /// The setting is present but not valid text.
    NotUnicode,
}

/// The fatal startup errors, one per setting that can be at fault.
#[derive(Clone, Copy, PartialEq, Eq, Structural, Debug)]
pub enum ConfigError {
    SleepDurationNotInteger,
    BackupsToKeepNotInteger,
    MysqlPwdMissing,
    MysqlUserMissing,
    AwsAccessKeyIdMissing,
    AwsSecretAccessKeyMissing,
    AwsDefaultRegionMissing,
    AwsUrlMissing,
    MysqlHostMissing,
    SlackUrlNotUnicode,
}

/// The validated startup configuration, immutable for the process
/// lifetime.  The storage credentials are only checked for presence;
/// the storage client reads them from the environment itself.
#[derive(Debug)]
pub struct Config {
    pub sleep_secs: u64,
    pub backups_to_keep: usize,
    pub mysql_user: String,
    pub mysql_host: String,
    pub aws_url: String,
    pub slack_url: Option<String>,
}

/// The first configuration fault, in the order the settings are read:
/// the numeric settings must parse where present (an absent or unreadable
/// one falls back to its default), the password, user, storage
/// credentials, storage location and host must be present, and the
/// notifier target, an optional setting, must be readable where set.
pub open spec fn spec_config_error(
    sleep: EnvValue,
    keeps: EnvValue,
    mysql_pwd_set: bool,
    mysql_user: EnvValue,
    aws_key_set: bool,
    aws_secret_set: bool,
    aws_region_set: bool,
    aws_url: EnvValue,
    mysql_host: EnvValue,
    slack: EnvValue,
) -> Option<ConfigError> {
    if (match sleep {
        EnvValue::Present(s) => !parses_u64(s@),
        _ => false,
    }) {
        Some(ConfigError::SleepDurationNotInteger)
    } else if (match keeps {
        EnvValue::Present(s) => !parses_usize(s@),
        _ => false,
    }) {
        Some(ConfigError::BackupsToKeepNotInteger)
    } else if !mysql_pwd_set {
        Some(ConfigError::MysqlPwdMissing)
    } else if !(mysql_user is Present) {
        Some(ConfigError::MysqlUserMissing)
    } else if !aws_key_set {
        Some(ConfigError::AwsAccessKeyIdMissing)
    } else if !aws_secret_set {
        Some(ConfigError::AwsSecretAccessKeyMissing)
    } else if !aws_region_set {
        Some(ConfigError::AwsDefaultRegionMissing)
    } else if !(aws_url is Present) {
        Some(ConfigError::AwsUrlMissing)
    } else if !(mysql_host is Present) {
        Some(ConfigError::MysqlHostMissing)
    } else if slack is NotUnicode {
        Some(ConfigError::SlackUrlNotUnicode)
    } else {
        None
    }
}

/// Validates the startup settings.  Fails exactly on the first fault
/// that `spec_config_error` names; otherwise every field of the
/// configuration is the validated value of its setting, with the
/// defaults of one day between runs and three backups kept.
pub fn build_config(
    sleep: EnvValue,
    keeps: EnvValue,
    mysql_pwd_set: bool,
    mysql_user: EnvValue,
    aws_key_set: bool,
    aws_secret_set: bool,
    aws_region_set: bool,
    aws_url: EnvValue,
    mysql_host: EnvValue,
    slack: EnvValue,
) -> (r: Result<Config, ConfigError>)
    ensures
        r matches Err(e) ==> spec_config_error(
            sleep,
            keeps,
            mysql_pwd_set,
            mysql_user,
            aws_key_set,
            aws_secret_set,
            aws_region_set,
            aws_url,
            mysql_host,
            slack,
        ) == Some(e),
        r is Ok <==> spec_config_error(
            sleep,
            keeps,
            mysql_pwd_set,
            mysql_user,
            aws_key_set,
            aws_secret_set,
            aws_region_set,
            aws_url,
            mysql_host,
            slack,
        ) is None,
        r matches Ok(c) ==> {
            &&& (match sleep {
                EnvValue::Present(s) => c.sleep_secs == dec_value(strip_plus(s@)),
                _ => c.sleep_secs == DEFAULT_SLEEP_SECS,
            })
            &&& (match keeps {
                EnvValue::Present(s) => c.backups_to_keep == dec_value(strip_plus(s@)),
                _ => c.backups_to_keep == DEFAULT_BACKUPS_TO_KEEP,
            })
            &&& (match mysql_user {
                EnvValue::Present(s) => c.mysql_user == s,
                _ => false,
            })
            &&& (match aws_url {
                EnvValue::Present(s) => c.aws_url == s,
                _ => false,
            })
            &&& (match mysql_host {
                EnvValue::Present(s) => c.mysql_host == s,
                _ => false,
            })
            &&& (match slack {
                EnvValue::Present(s) => c.slack_url == Some(s),
                EnvValue::Missing => c.slack_url is None,
                EnvValue::NotUnicode => false,
            })
        },
{
    let sleep_secs: u64 = match sleep {
        EnvValue::Present(s) => match parse_u64(s.as_str()) {
            Some(v) => v,
            None => {
                return Err(ConfigError::SleepDurationNotInteger);
            },
        },
        _ => DEFAULT_SLEEP_SECS,
    };
    let backups_to_keep: usize = match keeps {
        EnvValue::Present(s) => match parse_usize(s.as_str()) {
            Some(v) => v,
            None => {
                return Err(ConfigError::BackupsToKeepNotInteger);
            },
        },
        _ => DEFAULT_BACKUPS_TO_KEEP,
    };
    if !mysql_pwd_set {
        return Err(ConfigError::MysqlPwdMissing);
    }
    let mysql_user = match mysql_user {
        EnvValue::Present(s) => s,
        _ => {
            return Err(ConfigError::MysqlUserMissing);
        },
    };
    if !aws_key_set {
        return Err(ConfigError::AwsAccessKeyIdMissing);
    }
    if !aws_secret_set {
        return Err(ConfigError::AwsSecretAccessKeyMissing);
    }
    if !aws_region_set {
        return Err(ConfigError::AwsDefaultRegionMissing);
    }
    let aws_url = match aws_url {
        EnvValue::Present(s) => s,
        _ => {
            return Err(ConfigError::AwsUrlMissing);
        },
    };
    let mysql_host = match mysql_host {
        EnvValue::Present(s) => s,
        _ => {
            return Err(ConfigError::MysqlHostMissing);
        },
    };
    let slack_url = match slack {
        EnvValue::Present(s) => Some(s),
        EnvValue::Missing => None,
        EnvValue::NotUnicode => {
            return Err(ConfigError::SlackUrlNotUnicode);
        },
    };
    Ok(Config { sleep_secs, backups_to_keep, mysql_user, mysql_host, aws_url, slack_url })
}

/// The interval between runs when none is configured, in seconds.
pub const DEFAULT_SLEEP_SECS: u64 = 86400;

/// How many backups are kept when no count is configured.
pub const DEFAULT_BACKUPS_TO_KEEP: usize = 3;

} // verus!
