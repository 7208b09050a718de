//! Parsing of the two configuration words this layer interprets itself:
//! the channel kind and the congestion-control-algorithm name. All other
//! options are plain values handed in from outside.
use crate::Mode;
use vstd::prelude::*;
use vstd::string::StrSliceExecFns;

verus! {

/// `c` with an ASCII capital letter folded to lowercase.
pub open spec fn lower_char(c: char) -> char {
    if 65 <= c as u32 <= 90 {
        (((c as u32) + 32) as u8) as char
    } else {
        c
    }
}

/// `s` with every ASCII capital letter folded to lowercase.
pub open spec fn lower_chars(s: Seq<char>) -> Seq<char> {
    s.map_values(|c: char| lower_char(c))
}

/// The channel kind a mode word names, compared after ASCII case
/// folding: `datagram` and `dg` name the unreliable-message channel,
/// `stream` and `str` the reliable byte stream; anything else is
/// rejected.
pub open spec fn spec_mode_of(s: Seq<char>) -> Option<Mode> {
    if lower_chars(s) == "datagram"@ || lower_chars(s) == "dg"@ {
        Some(Mode::Datagram)
    } else if lower_chars(s) == "stream"@ || lower_chars(s) == "str"@ {
        Some(Mode::Stream)
    } else {
        None
    }
}

/// Whether `s`, folded to ASCII lowercase, spells exactly `t`.
fn matches_lower(s: &str, t: &str) -> (r: bool)
    ensures
        r == (lower_chars(s@) == t@),
{
    let n = s.unicode_len();
    if n != t.unicode_len() {
        assert(lower_chars(s@).len() != t@.len());
        return false;
    }
    let mut i: usize = 0;
    while i < n
        invariant
            0 <= i <= n,
            n == s@.len(),
            n == t@.len(),
            forall|j: int| 0 <= j < i ==> lower_chars(s@)[j] == t@[j],
        decreases n - i,
    {
        let c = s.get_char(i);
        let u = c as u32;
        let lc = if 65 <= u && u <= 90 {
            ((u as u8) + 32) as char
        } else {
            c
        };
        proof {
            let uu = c as u32;
            if 65 <= uu <= 90 {
                assert((uu + 32) as u8 == (uu as u8) + 32) by (bit_vector)
                    requires
                        65 <= uu <= 90,
                ;
            }
            assert(lc == lower_char(s@[i as int]));
        }
        if lc != t.get_char(i) {
            assert(lower_chars(s@)[i as int] != t@[i as int]);
            return false;
        }
        i = i + 1;
    }
    proof {
        assert(lower_chars(s@) =~= t@);
    }
    true
}

/// Whether `s` spells exactly `t`.
fn str_eq(s: &str, t: &str) -> (r: bool)
    ensures
        r == (s@ == t@),
{
    let n = s.unicode_len();
    if n != t.unicode_len() {
        return false;
    }
    let mut i: usize = 0;
    while i < n
        invariant
            0 <= i <= n,
            n == s@.len(),
            n == t@.len(),
            forall|j: int| 0 <= j < i ==> s@[j] == t@[j],
        decreases n - i,
    {
        if s.get_char(i) != t.get_char(i) {
            return false;
        }
        i = i + 1;
    }
    proof {
        assert(s@ =~= t@);
    }
    true
}

impl Mode {
    /// Reads a channel-kind word: `datagram`/`dg` or `stream`/`str`, in
    /// any ASCII case; any other word is rejected.
    pub fn from_str(s: &str) -> (r: Option<Mode>)
        ensures
            r == spec_mode_of(s@),
    {
        if matches_lower(s, "datagram") || matches_lower(s, "dg") {
            Some(Mode::Datagram)
        } else if matches_lower(s, "stream") || matches_lower(s, "str") {
            Some(Mode::Stream)
        } else {
            None
        }
    }
}

/// The congestion-control algorithms the transport can be asked for.
#[derive(Clone, Copy, Debug, PartialEq, Eq, Structural)]
pub enum CcAlgorithm {
    Cubic,
    Bbr,
    Copa,
}

/// The algorithm a name picks: exactly `Cubic`, `Bbr` or `Copa`; an
/// unknown name is rejected before any connection activity.
pub open spec fn spec_cca_of(s: Seq<char>) -> Option<CcAlgorithm> {
    if s == "Cubic"@ {
        Some(CcAlgorithm::Cubic)
    } else if s == "Bbr"@ {
        Some(CcAlgorithm::Bbr)
    } else if s == "Copa"@ {
        Some(CcAlgorithm::Copa)
    } else {
        None
    }
}

impl CcAlgorithm {
    /// Reads a congestion-control-algorithm name, failing fast on an
    /// unknown one.
    pub fn from_str(s: &str) -> (r: Option<CcAlgorithm>)
        ensures
            r == spec_cca_of(s@),
    {
        if str_eq(s, "Cubic") {
            Some(CcAlgorithm::Cubic)
        } else if str_eq(s, "Bbr") {
            Some(CcAlgorithm::Bbr)
        } else if str_eq(s, "Copa") {
            Some(CcAlgorithm::Copa)
        } else {
            None
        }
    }
}

} // verus!
