//! The monitoring configuration: one interface, its managed unit, and the
//! three durations the loop runs by. Built once at startup, immutable for
//! the process lifetime.

use vstd::prelude::*;
use crate::parse::{is_space, spec_trim, spec_trim_end, spec_trim_start};
use crate::supervisor::StartupError;

verus! {

/// The managed unit's name for an interface: the interface embedded in
/// the fixed naming template.
pub open spec fn spec_unit_name(iface: Seq<char>) -> Seq<char> {
    "wg-quick@"@ + iface + ".service"@
}

/// Everything the supervisor is configured with. The durations are whole
/// seconds.
pub struct Config {
    /// The tunnel interface under watch, trimmed and non-empty.
    pub interface: String,
    /// The managed unit derived from the interface name.
    pub unit_name: String,
    /// How old the last handshake may grow before it counts as stale.
    pub timeout_secs: u64,
    /// How long to sleep between polls.
    pub poll_interval_secs: u64,
    /// How long to sleep after a restart attempt.
    pub cooldown_secs: u64,
}

impl Config {
    /// A well-formed configuration: the interface name is non-empty and
    /// carries no surrounding whitespace, and the unit name is derived
    /// from it by the fixed template.
    pub open spec fn wf(self) -> bool {
        &&& self.interface@.len() > 0
        &&& !is_space(self.interface@[0])
        &&& !is_space(self.interface@.last())
        &&& self.unit_name@ == spec_unit_name(self.interface@)
    }

    /// Build the configuration for an interface name as given on the
    /// command line. A name that is empty once trimmed is the startup
    /// error for a missing interface; otherwise the trimmed name is
    /// adopted and the unit name derived from it.
    pub fn new(interface: &str, timeout_secs: u64, poll_interval_secs: u64, cooldown_secs: u64) -> (r:
        Result<Config, StartupError>)
        ensures
            spec_trim(interface@).len() == 0 ==> r == Result::<Config, StartupError>::Err(
                StartupError::EmptyInterfaceName,
            ),
            spec_trim(interface@).len() > 0 ==> {
                &&& r is Ok
                &&& r->Ok_0.wf()
                &&& r->Ok_0.interface@ == spec_trim(interface@)
                &&& r->Ok_0.timeout_secs == timeout_secs
                &&& r->Ok_0.poll_interval_secs == poll_interval_secs
                &&& r->Ok_0.cooldown_secs == cooldown_secs
            },
    {
        let trimmed = trim_str(interface);
        if trimmed.unicode_len() == 0 {
            return Err(StartupError::EmptyInterfaceName);
        }
        let mut unit_name = String::from_str("wg-quick@");
        unit_name.append(trimmed);
        unit_name.append(".service");
        proof {
            lemma_trim_no_outer_space(interface@);
        }
        Ok(
            Config {
                interface: String::from_str(trimmed),
                unit_name,
                timeout_secs,
                poll_interval_secs,
                cooldown_secs,
            },
        )
    }
}

/// A trimmed sequence is empty or has no whitespace at either end.
proof fn lemma_trim_start_no_leading(s: Seq<char>)
    ensures
        spec_trim_start(s).len() > 0 ==> !is_space(spec_trim_start(s)[0]),
    decreases s.len(),
{
    if s.len() > 0 && is_space(s[0]) {
        lemma_trim_start_no_leading(s.drop_first());
    }
}

proof fn lemma_trim_end_no_trailing(s: Seq<char>)
    ensures
        spec_trim_end(s).len() > 0 ==> !is_space(spec_trim_end(s).last()),
        spec_trim_end(s).len() > 0 && !is_space(s[0]) ==> !is_space(spec_trim_end(s)[0]),
    decreases s.len(),
{
    if s.len() > 0 && is_space(s.last()) {
        lemma_trim_end_no_trailing(s.drop_last());
    }
}

proof fn lemma_trim_no_outer_space(s: Seq<char>)
    ensures
        spec_trim(s).len() > 0 ==> !is_space(spec_trim(s)[0]) && !is_space(spec_trim(s).last()),
{
    lemma_trim_start_no_leading(s);
    lemma_trim_end_no_trailing(spec_trim_start(s));
}

/// The slice of `s` with surrounding whitespace removed.
pub fn trim_str(s: &str) -> (r: &str)
    ensures
        r@ == spec_trim(s@),
{
    let ghost sq = s@;
    let n = s.unicode_len();
    let mut lo: usize = 0;
    let mut hi: usize = n;
    proof {
        assert(sq.subrange(0, n as int) =~= sq);
    }
    while lo < hi && is_space_char_at(s, lo)
        invariant
            0 <= lo <= hi <= n,
            hi == n,
            n == sq.len(),
            sq == s@,
            spec_trim_start(sq) == spec_trim_start(sq.subrange(lo as int, hi as int)),
        decreases hi - lo,
    {
        proof {
            let cur = sq.subrange(lo as int, hi as int);
            assert(cur[0] == sq[lo as int]);
            assert(cur.drop_first() =~= sq.subrange(lo as int + 1, hi as int));
        }
        lo += 1;
    }
    proof {
        let cur = sq.subrange(lo as int, hi as int);
        if lo < hi {
            assert(cur[0] == sq[lo as int]);
        }
        assert(spec_trim_start(cur) == cur);
    }
    while hi > lo && is_space_char_at(s, hi - 1)
        invariant
            0 <= lo <= hi <= n,
            n == sq.len(),
            sq == s@,
            spec_trim(sq) == spec_trim_end(sq.subrange(lo as int, hi as int)),
        decreases hi - lo,
    {
        proof {
            let cur = sq.subrange(lo as int, hi as int);
            assert(cur.last() == sq[hi as int - 1]);
            assert(cur.drop_last() =~= sq.subrange(lo as int, hi as int - 1));
        }
        hi -= 1;
    }
    proof {
        let cur = sq.subrange(lo as int, hi as int);
        if hi > lo {
            assert(cur.last() == sq[hi as int - 1]);
        }
        assert(spec_trim_end(cur) == cur);
    }
    let r = s.substring_char(lo, hi);
    r
}

/// Whether the character of `s` at `i` is whitespace.
fn is_space_char_at(s: &str, i: usize) -> (b: bool)
    requires
        i < s@.len(),
    ensures
        b == is_space(s@[i as int]),
{
    let c = s.get_char(i);
    let v = c as u32;
    v == 32 || (9 <= v && v <= 13) || v == 0x85 || v == 0xa0 || v == 0x1680 || (0x2000 <= v && v
        <= 0x200a) || v == 0x2028 || v == 0x2029 || v == 0x202f || v == 0x205f || v == 0x3000
}

} // verus!
