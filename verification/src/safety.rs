//! Startup validation of the configuration, before any cycle runs.
//!
//! Only the checks over the configuration's own values live here; that
//! the ledger and prompt files exist on disk is checked by the process
//! around the library.

use vstd::prelude::*;
use vstd::string::StrSliceExecFns;
use crate::types::Config;

verus! {

/// Why the configuration was rejected at startup.
#[derive(Clone, Copy, Debug, PartialEq, Eq, Structural)]
pub enum StartupError {
    /// The private key text is empty.
    PemMissing,
    /// The private key text does not look like a key.
    PemNotKey,
    /// No cities are configured.
    NoCities,
    /// The exchange key id is not set.
    MissingKeyId,
    /// Live trading is configured without the explicit confirmation.
    LiveUnconfirmed,
}

/// The key marker every private key text must carry.
pub open spec fn has_begin(s: Seq<char>) -> bool {
    exists|i: int| 0 <= i && i + 5 <= s.len() && #[trigger] s.subrange(i, i + 5) == "BEGIN"@
}

/// The first failed startup check, in order: key text present, key
/// text plausible, cities configured, key id set, live trading
/// confirmed; `None` when all pass.
pub open spec fn spec_validate_startup(c: Config) -> Option<StartupError> {
    if c.kalshi_private_key_pem@.len() == 0 {
        Some(StartupError::PemMissing)
    } else if !has_begin(c.kalshi_private_key_pem@) {
        Some(StartupError::PemNotKey)
    } else if c.cities@.len() == 0 {
        Some(StartupError::NoCities)
    } else if c.kalshi_key_id@.len() == 0 {
        Some(StartupError::MissingKeyId)
    } else if !c.paper_trade && !c.confirm_live {
        Some(StartupError::LiveUnconfirmed)
    } else {
        None
    }
}

/// Whether the text contains the key marker.
fn contains_begin(s: &String) -> (b: bool)
    ensures
        b == has_begin(s@),
{
    proof {
        reveal_strlit("BEGIN");
    }
    let n = s.as_str().unicode_len();
    if n < 5 {
        return false;
    }
    let mut i: usize = 0;
    while i <= n - 5
        invariant
            0 <= i <= n - 4,
            n == s@.len(),
            5 <= n,
            forall|j: int| 0 <= j < i ==> #[trigger] s@.subrange(j, j + 5) != "BEGIN"@,
        decreases n - i,
    {
        proof {
            reveal_strlit("BEGIN");
        }
        let hit = s.as_str().get_char(i) == 'B' && s.as_str().get_char(i + 1) == 'E'
            && s.as_str().get_char(i + 2) == 'G' && s.as_str().get_char(i + 3) == 'I'
            && s.as_str().get_char(i + 4) == 'N';
        if hit {
            proof {
                assert(s@.subrange(i as int, i + 5) =~= "BEGIN"@);
            }
            return true;
        }
        proof {
            assert(s@.subrange(i as int, i + 5) != "BEGIN"@) by {
                if s@.subrange(i as int, i + 5) == "BEGIN"@ {
                    assert(s@.subrange(i as int, i + 5)[0] == s@[i as int]);
                    assert(s@.subrange(i as int, i + 5)[1] == s@[i + 1]);
                    assert(s@.subrange(i as int, i + 5)[2] == s@[i + 2]);
                    assert(s@.subrange(i as int, i + 5)[3] == s@[i + 3]);
                    assert(s@.subrange(i as int, i + 5)[4] == s@[i + 4]);
                }
            }
        }
        i = i + 1;
    }
    proof {
        assert(!has_begin(s@)) by {
            assert(forall|j: int| 0 <= j && j + 5 <= s@.len() ==>
                #[trigger] s@.subrange(j, j + 5) != "BEGIN"@);
        }
    }
    false
}

/// Validate the configuration before the first cycle: returns the
/// first failed check, if and only if one fails.
pub fn validate_startup(config: &Config) -> (r: Option<StartupError>)
    ensures
        r == spec_validate_startup(*config),
{
    if config.kalshi_private_key_pem.as_str().unicode_len() == 0 {
        return Some(StartupError::PemMissing);
    }
    if !contains_begin(&config.kalshi_private_key_pem) {
        return Some(StartupError::PemNotKey);
    }
    if config.cities.len() == 0 {
        return Some(StartupError::NoCities);
    }
    if config.kalshi_key_id.as_str().unicode_len() == 0 {
        return Some(StartupError::MissingKeyId);
    }
    if !config.paper_trade && !config.confirm_live {
        return Some(StartupError::LiveUnconfirmed);
    }
    None
}

} // verus!
