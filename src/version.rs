//! Semantic versions of plugins and of the plugin interface.
use vstd::prelude::*;
use crate::text::{lemma_pieces_stable, pieces};
use vstd::string::*;

verus! {

/// A semantic version `major.minor.patch`.
///
/// The all-zero value is reserved for "unset" and is compatible with nothing.
#[derive(Debug, Clone, Copy, PartialEq, Eq, Structural, Hash)]
pub struct Version {
    /// Incremented with breaking changes.
    pub major: u8,
    /// Incremented with backward-compatible changes.
    pub minor: u8,
    /// Incremented with backward-compatible fixes.
    pub patch: u8,
}

impl Version {
    /// The reserved "unset" version `0.0.0`.
    pub open spec fn is_unset(self) -> bool {
        self.major == 0 && self.minor == 0 && self.patch == 0
    }

    /// Two set versions are compatible when their majors agree (from 1.0 on),
    /// or, both being below 1.0, when their minors agree.
    pub open spec fn compatible(self, other: Version) -> bool {
        &&& !self.is_unset()
        &&& !other.is_unset()
        &&& if self.major == 0 && other.major == 0 {
            self.minor == other.minor
        } else {
            self.major == other.major
        }
    }

    /// Lexicographic order on `(major, minor, patch)`.
    pub open spec fn order(self, other: Version) -> core::cmp::Ordering {
        if self.major < other.major {
            core::cmp::Ordering::Less
        } else if self.major > other.major {
            core::cmp::Ordering::Greater
        } else if self.minor < other.minor {
            core::cmp::Ordering::Less
        } else if self.minor > other.minor {
            core::cmp::Ordering::Greater
        } else if self.patch < other.patch {
            core::cmp::Ordering::Less
        } else if self.patch > other.patch {
            core::cmp::Ordering::Greater
        } else {
            core::cmp::Ordering::Equal
        }
    }

    /// Builds a version from its three parts.
    pub fn new(major: u8, minor: u8, patch: u8) -> (r: Version)
        ensures
            r == (Version { major, minor, patch }),
    {
        Version { major, minor, patch }
    }

    /// Checks if this version is compatible with an other.
    pub fn is_compatible(&self, other: &Self) -> (r: bool)
        ensures
            r == self.compatible(*other),
    {
        if self.is_unset_exec() || other.is_unset_exec() {
            false
        } else if self.major == 0 && other.major == 0 {
            self.minor == other.minor
        } else {
            self.major == other.major
        }
    }

    /// Whether this is the reserved "unset" version.
    pub fn is_unset_exec(&self) -> (r: bool)
        ensures
            r == self.is_unset(),
    {
        self.major == 0 && self.minor == 0 && self.patch == 0
    }

    /// Compares two versions by `(major, minor, patch)`.
    pub fn compare(&self, other: &Self) -> (r: core::cmp::Ordering)
        ensures
            r == self.order(*other),
    {
        if self.major != other.major {
            if self.major < other.major {
                core::cmp::Ordering::Less
            } else {
                core::cmp::Ordering::Greater
            }
        } else if self.minor != other.minor {
            if self.minor < other.minor {
                core::cmp::Ordering::Less
            } else {
                core::cmp::Ordering::Greater
            }
        } else if self.patch < other.patch {
            core::cmp::Ordering::Less
        } else if self.patch > other.patch {
            core::cmp::Ordering::Greater
        } else {
            core::cmp::Ordering::Equal
        }
    }

    /// Parses `major[.minor[.patch]]`; a missing part reads as zero and parts
    /// after the third are ignored. Each present part is a decimal `u8`,
    /// optionally preceded by `+`.
    pub fn parse(s: &str) -> (r: Result<Version, ParseVersionError>)
        ensures
            r is Ok <==> parses(s@),
            r is Ok ==> r->Ok_0 == parsed(s@),
    {
        let n = s.unicode_len();
        let mut parts: Vec<u8> = Vec::new();
        let mut start: usize = 0;
        let mut i: usize = 0;
        let mut done = false;
        let ghost full = s@;
        assert(full.subrange(0, 0) =~= Seq::<char>::empty());
        while !done && parts.len() < 3
            invariant
                n == full.len(),
                full == s@,
                start <= i <= n,
                parts@.len() <= 3,
                !done ==> pieces(full.subrange(0, i as int), '.').len() == parts@.len() + 1,
                !done ==> pieces(full.subrange(0, i as int), '.').last() == full.subrange(
                    start as int,
                    i as int,
                ),
                done ==> pieces(full, '.').len() == parts@.len(),
                forall|j: int|
                    0 <= j < parts@.len() ==> #[trigger] parse_u8(piece(full, j)) == Some(
                        parts@[j],
                    ),
            decreases (n - i) + (3 - parts@.len()) + (if done {
                0int
            } else {
                1int
            }),
        {
            let k = parts.len();
            if i == n || s.get_char(i) == '.' {
                let piece_str = s.substring_char(start, i);
                proof {
                    if i == n {
                        assert(full.subrange(0, i as int) =~= full);
                    } else {
                        lemma_pieces_prefix(full, i as int, k as int);
                    }
                }
                match parse_piece(piece_str) {
                    Some(v) => {
                        parts.push(v);
                    },
                    None => {
                        return Err(ParseVersionError { part: k });
                    },
                }
                if i == n {
                    done = true;
                } else {
                    assert(full.subrange(0, i + 1).drop_last() =~= full.subrange(0, i as int));
                    i = i + 1;
                    start = i;
                    assert(full.subrange(start as int, i as int) =~= Seq::<char>::empty());
                }
            } else {
                assert(full.subrange(0, i + 1).drop_last() =~= full.subrange(0, i as int));
                assert(full.subrange(start as int, i + 1) =~= full.subrange(
                    start as int,
                    i as int,
                ).push(full[i as int]));
                i = i + 1;
            }
        }
        while parts.len() < 3
            invariant
                done || parts@.len() == 3,
                done ==> pieces(full, '.').len() <= parts@.len(),
                parts@.len() <= 3,
                forall|j: int|
                    0 <= j < parts@.len() ==> #[trigger] parse_u8(piece(full, j)) == Some(
                        parts@[j],
                    ),
            decreases 3 - parts@.len(),
        {
            parts.push(0);
        }
        assert(parse_u8(piece(full, 0)) == Some(parts@[0]));
        assert(parse_u8(piece(full, 1)) == Some(parts@[1]));
        assert(parse_u8(piece(full, 2)) == Some(parts@[2]));
        Ok(Version { major: parts[0], minor: parts[1], patch: parts[2] })
    }
}

impl Default for Version {
    /// The reserved "unset" version `0.0.0`.
    fn default() -> (r: Version)
        ensures
            r.is_unset(),
    {
        Version { major: 0, minor: 0, patch: 0 }
    }
}

/// Compatibility is symmetric, and the unset version is compatible with no
/// version, itself included.
pub proof fn lemma_compatibility(a: Version, b: Version)
    ensures
        a.compatible(b) == b.compatible(a),
        a.is_unset() ==> !a.compatible(b) && !b.compatible(a),
{
}

/// A version string whose part at index `part` is not a decimal `u8`.
#[derive(Debug, Clone, Copy, PartialEq, Eq, Structural)]
pub struct ParseVersionError {
    /// Index of the offending part: 0 for major, 1 for minor, 2 for patch.
    pub part: usize,
}

/// The piece at index `j`, or nothing when `s` has fewer pieces.
pub open spec fn piece(s: Seq<char>, j: int) -> Option<Seq<char>> {
    if 0 <= j < pieces(s, '.').len() {
        Some(pieces(s, '.')[j])
    } else {
        None
    }
}

/// Value of a decimal digit.
pub open spec fn digit_value(c: char) -> nat {
    (c as u32 - '0' as u32) as nat
}

/// Whether `c` is an ASCII decimal digit.
pub open spec fn is_digit(c: char) -> bool {
    '0' <= c && c <= '9'
}

/// Value of a run of decimal digits.
pub open spec fn decimal_value(d: Seq<char>) -> nat
    decreases d.len(),
{
    if d.len() == 0 {
        0
    } else {
        decimal_value(d.drop_last()) * 10 + digit_value(d.last())
    }
}

/// The digits of a number: the text without its leading `+`, if any.
pub open spec fn unsigned_digits(p: Seq<char>) -> Seq<char> {
    if p.len() > 0 && p[0] == '+' {
        p.drop_first()
    } else {
        p
    }
}

/// Whether all characters of `d` are decimal digits.
pub open spec fn all_digits(d: Seq<char>) -> bool {
    forall|i: int| 0 <= i < d.len() ==> is_digit(#[trigger] d[i])
}

/// A `u8` written in decimal, with an optional leading `+`.
pub open spec fn parse_u8_text(p: Seq<char>) -> Option<u8> {
    let d = unsigned_digits(p);
    if d.len() > 0 && all_digits(d) && decimal_value(d) <= 255 {
        Some(decimal_value(d) as u8)
    } else {
        None
    }
}

/// A missing piece reads as zero; a present one must be a `u8`.
pub open spec fn parse_u8(p: Option<Seq<char>>) -> Option<u8> {
    match p {
        Some(t) => parse_u8_text(t),
        None => Some(0u8),
    }
}

/// Whether `s` is a valid version string.
pub open spec fn parses(s: Seq<char>) -> bool {
    &&& parse_u8(piece(s, 0)) is Some
    &&& parse_u8(piece(s, 1)) is Some
    &&& parse_u8(piece(s, 2)) is Some
}

/// The version that a valid version string stands for.
pub open spec fn parsed(s: Seq<char>) -> Version {
    Version {
        major: parse_u8(piece(s, 0))->Some_0,
        minor: parse_u8(piece(s, 1))->Some_0,
        patch: parse_u8(piece(s, 2))->Some_0,
    }
}

proof fn lemma_pieces_prefix(s: Seq<char>, i: int, k: int)
    requires
        0 <= i <= s.len(),
        0 <= k,
        pieces(s.subrange(0, i), '.').len() == k + 1,
        i == s.len() || s[i] == '.',
    ensures
        piece(s, k) == Some(pieces(s.subrange(0, i), '.').last()),
{
    if i < s.len() {
        assert(s.subrange(0, i + 1).drop_last() =~= s.subrange(0, i));
        lemma_pieces_stable(s, '.', i + 1, s.len() as int);
    }
    assert(s.subrange(0, s.len() as int) =~= s);
}

/// Parses one piece of a version string.
fn parse_piece(t: &str) -> (r: Option<u8>)
    ensures
        r == parse_u8_text(t@),
{
    let n = t.unicode_len();
    let mut i: usize = 0;
    if n > 0 && t.get_char(0) == '+' {
        i = 1;
    }
    let ghost d = unsigned_digits(t@);
    let ghost off = i as int;
    if i == n {
        return None;
    }
    let mut acc: u32 = 0;
    assert(d =~= t@.subrange(off, n as int));
    assert(d.subrange(0, 0) =~= Seq::<char>::empty());
    while i < n
        invariant
            0 <= off <= i <= n,
            n == t@.len(),
            d == t@.subrange(off, n as int),
            d == unsigned_digits(t@),
            acc <= 255,
            forall|j: int| off <= j < i ==> is_digit(#[trigger] t@[j]),
            decimal_value(d.subrange(0, i - off)) == acc,
        decreases n - i,
    {
        let c = t.get_char(i);
        if !('0' <= c && c <= '9') {
            assert(d[i - off] == c);
            assert(!is_digit(d[i - off]));
            return None;
        }
        let v = (c as u32) - ('0' as u32);
        assert(d.subrange(0, i + 1 - off).drop_last() =~= d.subrange(0, i - off));
        if acc * 10 + v > 255 {
            proof {
                lemma_decimal_grows(d, i + 1 - off);
                assert(d.subrange(0, i + 1 - off).last() == c);
                assert(digit_value(c) == v);
                assert(decimal_value(d.subrange(0, i + 1 - off)) == decimal_value(
                    d.subrange(0, i - off),
                ) * 10 + digit_value(c));
            }
            return None;
        }
        acc = acc * 10 + v;
        i = i + 1;
    }
    assert(d.subrange(0, i - off) =~= d);
    assert forall|j: int| 0 <= j < d.len() implies is_digit(#[trigger] d[j]) by {
        assert(d[j] == t@[j + off]);
    }
    Some(acc as u8)
}

proof fn lemma_decimal_grows(d: Seq<char>, m: int)
    requires
        0 <= m <= d.len(),
    ensures
        decimal_value(d.subrange(0, m)) <= decimal_value(d),
    decreases d.len() - m,
{
    if m < d.len() {
        lemma_decimal_grows(d, m + 1);
        assert(d.subrange(0, m + 1).drop_last() =~= d.subrange(0, m));
    } else {
        assert(d.subrange(0, m) =~= d);
    }
}

} // verus!
