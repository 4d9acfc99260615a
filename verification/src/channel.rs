//! Hierarchical channel names: a dotted lowercase name whose leading
//! segment is one of the four bus domains.

use vstd::prelude::*;

use crate::error::EventBusError;
use crate::strings::str_eq;

verus! {

/// The characters a channel name may contain.
pub open spec fn valid_channel_char(c: char) -> bool {
    ('a' <= c && c <= 'z') || ('0' <= c && c <= '9') || c == '.'
}

/// Index of the first dot, or the length when there is none.
pub open spec fn first_dot(s: Seq<char>) -> int
    decreases s.len(),
{
    if s.len() == 0 {
        0
    } else if s[0] == '.' {
        0
    } else {
        1 + first_dot(s.subrange(1, s.len() as int))
    }
}

/// The leading segment: everything before the first dot.
pub open spec fn domain_of(s: Seq<char>) -> Seq<char> {
    s.take(first_dot(s))
}

/// The four domains the bus routes by.
pub open spec fn known_domain(d: Seq<char>) -> bool {
    d == "system"@ || d == "xmpp"@ || d == "ui"@ || d == "plugin"@
}

/// A valid channel name: non-empty, no leading or trailing dot, no empty
/// segment, only lowercase letters, digits and dots, and a known domain
/// as the leading segment.
pub open spec fn valid_channel(s: Seq<char>) -> bool {
    &&& s.len() > 0
    &&& s[0] != '.'
    &&& s[s.len() - 1] != '.'
    &&& forall|i: int| 0 <= i < s.len() ==> valid_channel_char(#[trigger] s[i])
    &&& forall|i: int| 0 <= i && i + 1 < s.len() ==> !(s[i] == '.' && #[trigger] s[i + 1] == '.')
    &&& known_domain(domain_of(s))
}

/// A scan that finds no dot before `i`, and a dot (or the end) at `i`,
/// has found the first dot.
pub proof fn lemma_first_dot_at(s: Seq<char>, i: int)
    requires
        0 <= i <= s.len(),
        forall|j: int| 0 <= j < i ==> #[trigger] s[j] != '.',
        i < s.len() ==> s[i] == '.',
    ensures
        first_dot(s) == i,
    decreases s.len(),
{
    if s.len() == 0 {
    } else if s[0] == '.' {
    } else {
        let t = s.subrange(1, s.len() as int);
        assert forall|j: int| 0 <= j < i - 1 implies #[trigger] t[j] != '.' by {
            assert(s[j + 1] != '.');
        }
        lemma_first_dot_at(t, i - 1);
    }
}

/// A hierarchical channel name, e.g. `xmpp.message.received`.
#[derive(Debug, Clone, PartialEq, Eq, PartialOrd, Ord, Hash)]
pub struct Channel(String);

impl View for Channel {
    type V = Seq<char>;

    closed spec fn view(&self) -> Seq<char> {
        self.0@
    }
}

impl Channel {
    /// Create a new channel, validating its format. Succeeds exactly on
    /// valid channel names; on failure the error carries the name.
    pub fn new(name: String) -> (r: Result<Channel, EventBusError>)
        ensures
            r is Ok <==> valid_channel(name@),
            r matches Ok(c) ==> c@ == name@,
            r matches Err(e) ==> e matches EventBusError::InvalidChannel(n) && n@ == name@,
    {
        if Self::is_valid(name.as_str()) {
            Ok(Channel(name))
        } else {
            Err(EventBusError::InvalidChannel(name))
        }
    }

    /// Wrap a name the caller already knows; used by the library itself
    /// for its fixed channel constants.
    pub(crate) fn raw(name: String) -> (c: Channel)
        ensures
            c@ == name@,
    {
        Channel(name)
    }

    /// Check if a channel name is valid.
    pub fn is_valid(name: &str) -> (r: bool)
        ensures
            r == valid_channel(name@),
    {
        let n = name.unicode_len();
        if n == 0 {
            return false;
        }
        if name.get_char(0) == '.' {
            return false;
        }
        if name.get_char(n - 1) == '.' {
            return false;
        }
        // One pass for the character set and for empty segments.
        let mut i: usize = 0;
        while i < n
            invariant
                n == name@.len(),
                0 < n,
                i <= n,
                forall|j: int| 0 <= j < i ==> valid_channel_char(#[trigger] name@[j]),
                forall|j: int| 0 <= j < i && j + 1 < n ==> !(name@[j] == '.' && #[trigger] name@[j + 1] == '.'),
            decreases n - i,
        {
            let c = name.get_char(i);
            if !(('a' <= c && c <= 'z') || ('0' <= c && c <= '9') || c == '.') {
                return false;
            }
            if i + 1 < n && c == '.' && name.get_char(i + 1) == '.' {
                return false;
            }
            i += 1;
        }
        // Find the first dot and compare the leading segment with the
        // known domains.
        let fd = first_dot_index(name);
        let d = name.substring_char(0, fd);
        let known = str_eq(d, "system") || str_eq(d, "xmpp") || str_eq(d, "ui") || str_eq(
            d,
            "plugin",
        );
        known
    }

    /// The domain of the channel: its leading dot-segment.
    pub fn domain(&self) -> (r: &str)
        ensures
            r@ == domain_of(self@),
    {
        let fd = first_dot_index(self.0.as_str());
        self.0.as_str().substring_char(0, fd)
    }

    /// The full channel name.
    pub fn as_str(&self) -> (r: &str)
        ensures
            r@ == self@,
    {
        self.0.as_str()
    }
}

/// Index of the first dot of `s`, or its length when there is none.
pub(crate) fn first_dot_index(s: &str) -> (r: usize)
    ensures
        r == first_dot(s@),
        r <= s@.len(),
{
    let n = s.unicode_len();
    let mut i: usize = 0;
    while i < n
        invariant
            n == s@.len(),
            i <= n,
            forall|j: int| 0 <= j < i ==> #[trigger] s@[j] != '.',
        decreases n - i,
    {
        if s.get_char(i) == '.' {
            proof {
                lemma_first_dot_at(s@, i as int);
            }
            return i;
        }
        i += 1;
    }
    proof {
        lemma_first_dot_at(s@, n as int);
    }
    n
}

/// Every valid channel name has one of the four domains as its leading
/// dot-segment.
pub proof fn lemma_valid_channel_domain(s: Seq<char>)
    requires
        valid_channel(s),
    ensures
        known_domain(domain_of(s)),
{
}

} // verus!
