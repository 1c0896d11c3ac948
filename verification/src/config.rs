//! Validation of the resolved configuration values.
//!
//! The surrounding binary reads the raw variables from its environment and
//! hands them over as plain optional strings; this module decides which
//! combinations are a valid configuration and parses the worker-count
//! override. Whether the configured paths exist on disk is checked by the
//! binary afterwards.

use vstd::prelude::*;
use vstd::string::StrSliceExecFns;

verus! {

/// The resolved configuration of one orchestration run.
pub struct AppConfig {
    /// Directory scanned for encrypted files.
    pub input_dir: String,
    /// Directory the decrypted files are written into.
    pub output_dir: String,
    /// File holding the shared passphrase, when one is configured.
    pub passphrase_file: Option<String>,
    /// Identity (private-key) file, when one is configured.
    pub identity_file: Option<String>,
    /// Worker-pool size; zero means the default, one worker per processor.
    pub threads: usize,
}

/// Why a set of raw configuration values is invalid.
#[derive(Debug, Clone, Copy, PartialEq, Eq, Structural)]
pub enum ConfigError {
    /// No input directory was given.
    MissingInputDir,
    /// No output directory was given.
    MissingOutputDir,
    /// The worker-count override is not a valid non-negative integer.
    InvalidThreads,
}

/// The numeric value of a digit string, most significant digit first.
pub open spec fn spec_digits_val(d: Seq<char>) -> int
    decreases d.len(),
{
    if d.len() == 0 {
        0
    } else {
        spec_digits_val(d.drop_last()) * 10 + (d.last() as int - '0' as int)
    }
}

/// Whether `d` is a non-empty string of decimal digits.
pub open spec fn spec_is_digits(d: Seq<char>) -> bool {
    d.len() > 0 && forall|i: int| 0 <= i < d.len() ==> '0' <= #[trigger] d[i] <= '9'
}

/// The value a string parses to as a non-negative machine integer: an
/// optional leading plus sign, then decimal digits, and the value must fit.
pub open spec fn spec_parse_usize(s: Seq<char>) -> Option<int> {
    let digits = if s.len() > 0 && s[0] == '+' {
        s.subrange(1, s.len() as int)
    } else {
        s
    };
    if spec_is_digits(digits) && spec_digits_val(digits) <= usize::MAX {
        Some(spec_digits_val(digits))
    } else {
        None
    }
}

proof fn lemma_digits_val_nonneg(d: Seq<char>)
    requires
        forall|i: int| 0 <= i < d.len() ==> '0' <= #[trigger] d[i] <= '9',
    ensures
        spec_digits_val(d) >= 0,
    decreases d.len(),
{
    if d.len() > 0 {
        lemma_digits_val_nonneg(d.drop_last());
    }
}

/// The value of a digit string is at least the value of any of its prefixes.
proof fn lemma_digits_val_prefix(d: Seq<char>, m: int)
    requires
        0 <= m <= d.len(),
        forall|i: int| 0 <= i < d.len() ==> '0' <= #[trigger] d[i] <= '9',
    ensures
        spec_digits_val(d) >= spec_digits_val(d.take(m)),
    decreases d.len() - m,
{
    if m < d.len() {
        lemma_digits_val_prefix(d, m + 1);
        assert(d.take(m + 1).drop_last() =~= d.take(m));
        lemma_digits_val_nonneg(d.take(m));
        assert(spec_digits_val(d.take(m + 1)) == spec_digits_val(d.take(m)) * 10 + (d[m] as int
            - '0' as int));
    } else {
        assert(d.take(m) =~= d);
    }
}

/// Parses a non-negative machine integer: an optional leading plus sign,
/// then decimal digits. Returns `None` on an empty or malformed string and
/// on a value too large to fit.
pub fn parse_usize(s: &str) -> (r: Option<usize>)
    ensures
        match r {
            Some(v) => spec_parse_usize(s@) == Some(v as int),
            None => spec_parse_usize(s@) is None,
        },
{
    let n = s.unicode_len();
    let mut i: usize = 0;
    if n > 0 && s.get_char(0) == '+' {
        i = 1;
    }
    let ghost start = i as int;
    let ghost digits = if s@.len() > 0 && s@[0] == '+' {
        s@.subrange(1, s@.len() as int)
    } else {
        s@
    };
    proof {
        assert(digits =~= s@.subrange(start, n as int));
    }
    if i == n {
        // No digits at all.
        return None;
    }
    let mut acc: usize = 0;
    while i < n
        invariant
            start <= i <= n,
            n == s@.len(),
            start == 0 || start == 1,
            digits == s@.subrange(start, n as int),
            digits == (if s@.len() > 0 && s@[0] == '+' {
                s@.subrange(1, s@.len() as int)
            } else {
                s@
            }),
            forall|j: int| 0 <= j < i - start ==> '0' <= #[trigger] digits[j] <= '9',
            acc == spec_digits_val(digits.take(i - start)),
        decreases n - i,
    {
        let c = s.get_char(i);
        if c < '0' || c > '9' {
            proof {
                assert(digits[i - start] == c);
                assert(!spec_is_digits(digits));
            }
            return None;
        }
        let d: usize = (c as u8 - 48) as usize;
        let ghost prefix = digits.take(i - start);
        proof {
            assert(digits.take(i + 1 - start).drop_last() =~= prefix);
            assert(digits[i - start] == c);
            assert(spec_digits_val(digits.take(i + 1 - start)) == acc * 10 + d);
        }
        if acc > (usize::MAX - d) / 10 {
            proof {
                assert(acc * 10 + d > usize::MAX) by (nonlinear_arith)
                    requires
                        acc > (usize::MAX - d) / 10,
                        d <= 9,
                ;
                if spec_is_digits(digits) {
                    lemma_digits_val_prefix(digits, i + 1 - start);
                    assert(spec_digits_val(digits) > usize::MAX);
                }
            }
            return None;
        }
        proof {
            assert(acc * 10 + d <= usize::MAX) by (nonlinear_arith)
                requires
                    acc <= (usize::MAX - d) / 10,
                    d <= 9,
            ;
        }
        acc = acc * 10 + d;
        i = i + 1;
    }
    proof {
        assert(digits.take(n - start) =~= digits);
        assert(spec_is_digits(digits));
    }
    Some(acc)
}

/// The worker count a raw override value yields: zero when none is given,
/// its parsed value when it parses, and nothing — an invalid configuration —
/// otherwise.
pub open spec fn spec_threads_of(threads: Option<Seq<char>>) -> Option<int> {
    match threads {
        None => Some(0),
        Some(t) => spec_parse_usize(t),
    }
}

/// Validates the raw configuration values. The two directories are
/// required, in that order; the credentials are optional; a missing worker
/// override means the default pool size.
pub fn build_config(
    input_dir: Option<String>,
    output_dir: Option<String>,
    passphrase_file: Option<String>,
    identity_file: Option<String>,
    threads: Option<String>,
) -> (r: Result<AppConfig, ConfigError>)
    ensures
        input_dir is None ==> r == Err::<AppConfig, ConfigError>(ConfigError::MissingInputDir),
        input_dir is Some && output_dir is None ==> r == Err::<AppConfig, ConfigError>(
            ConfigError::MissingOutputDir,
        ),
        input_dir is Some && output_dir is Some ==> (match spec_threads_of(threads.deep_view()) {
            Some(v) => r matches Ok(c) && c.input_dir == input_dir->0 && c.output_dir
                == output_dir->0 && c.passphrase_file == passphrase_file && c.identity_file
                == identity_file && c.threads == v,
            None => r == Err::<AppConfig, ConfigError>(ConfigError::InvalidThreads),
        }),
{
    let input_dir = match input_dir {
        Some(s) => s,
        None => {
            return Err(ConfigError::MissingInputDir);
        },
    };
    let output_dir = match output_dir {
        Some(s) => s,
        None => {
            return Err(ConfigError::MissingOutputDir);
        },
    };
    let threads: usize = match &threads {
        None => 0,
        Some(t) => match parse_usize(t.as_str()) {
            Some(v) => v,
            None => {
                return Err(ConfigError::InvalidThreads);
            },
        },
    };
    Ok(AppConfig { input_dir, output_dir, passphrase_file, identity_file, threads })
}

} // verus!
