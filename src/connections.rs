//! The registry of live peer connections, keyed by `ip:port`, and the
//! length-prefixed framing of payloads on a stream.

use crate::protocol::NetworkError;
use crate::wire::{be32, get_be32, push_be32, read_be32, lemma_be32_roundtrip};
use vstd::prelude::*;

verus! {

/// Default port of the peer transport.
pub const DEFAULT_PORT: u16 = 19876;

/// Lifecycle of a peer connection.
#[derive(Debug, Clone, Copy, PartialEq, Eq, Structural)]
pub enum ConnectionState {
    Connecting,
    Connected,
    Disconnected,
}

/// Whether registry key `key` is `ip` followed by `:` and a port.
pub open spec fn key_has_ip(key: Seq<char>, ip: Seq<char>) -> bool {
    key.len() > ip.len() && key.subrange(0, ip.len() as int) == ip && key[ip.len() as int] == ':'
}

/// Whether a lookup by `peer` (either `ip:port` or a bare `ip`) matches
/// registry key `key`.
pub open spec fn key_matches(key: Seq<char>, peer: Seq<char>) -> bool {
    key == peer || key_has_ip(key, peer)
}

/// The elements of `s` whose flag is set, in order.
pub open spec fn select<T>(s: Seq<T>, flags: Seq<bool>) -> Seq<T>
    decreases s.len(),
{
    if s.len() == 0 || flags.len() == 0 {
        Seq::empty()
    } else if flags[0] {
        seq![s[0]] + select(s.drop_first(), flags.drop_first())
    } else {
        select(s.drop_first(), flags.drop_first())
    }
}

/// Index of the first entry whose key equals `key`, or `s.len()`.
pub open spec fn first_key<C>(s: Seq<(String, C)>, key: Seq<char>) -> int
    decreases s.len(),
{
    if s.len() == 0 {
        0
    } else if s[0].0@ == key {
        0
    } else {
        1 + first_key(s.drop_first(), key)
    }
}

/// Index of the first entry whose key has address `ip`, or `s.len()`.
pub open spec fn first_ip_key<C>(s: Seq<(String, C)>, ip: Seq<char>) -> int
    decreases s.len(),
{
    if s.len() == 0 {
        0
    } else if key_has_ip(s[0].0@, ip) {
        0
    } else {
        1 + first_ip_key(s.drop_first(), ip)
    }
}

proof fn lemma_first_nonneg<C>(s: Seq<(String, C)>, key: Seq<char>)
    ensures
        first_key(s, key) >= 0,
        first_ip_key(s, key) >= 0,
    decreases s.len(),
{
    if s.len() > 0 {
        lemma_first_nonneg(s.drop_first(), key);
    }
}

proof fn lemma_first_found<C>(s: Seq<(String, C)>, key: Seq<char>)
    ensures
        first_key(s, key) < s.len() ==> s[first_key(s, key)].0@ == key,
        first_ip_key(s, key) < s.len() ==> key_has_ip(s[first_ip_key(s, key)].0@, key),
    decreases s.len(),
{
    if s.len() > 0 {
        lemma_first_found(s.drop_first(), key);
        lemma_first_nonneg(s.drop_first(), key);
        if s[0].0@ != key && first_key(s, key) < s.len() {
            assert(s[first_key(s, key)] == s.drop_first()[first_key(s.drop_first(), key)]);
        }
        if !key_has_ip(s[0].0@, key) && first_ip_key(s, key) < s.len() {
            assert(s[first_ip_key(s, key)] == s.drop_first()[first_ip_key(s.drop_first(), key)]);
        }
    }
}

proof fn lemma_first_key_is<C>(s: Seq<(String, C)>, key: Seq<char>, i: int)
    requires
        0 <= i <= s.len(),
        i < s.len() ==> s[i].0@ == key,
        forall|k: int| 0 <= k < i ==> (#[trigger] s[k]).0@ != key,
    ensures
        first_key(s, key) == i,
    decreases s.len(),
{
    if s.len() > 0 && i > 0 {
        assert(s[0].0@ != key);
        assert forall|k: int| 0 <= k < i - 1 implies (#[trigger] s.drop_first()[k]).0@ != key by {
            assert(s.drop_first()[k] == s[k + 1]);
        }
        lemma_first_key_is(s.drop_first(), key, i - 1);
    }
}

proof fn lemma_first_ip_key_is<C>(s: Seq<(String, C)>, ip: Seq<char>, i: int)
    requires
        0 <= i <= s.len(),
        i < s.len() ==> key_has_ip(s[i].0@, ip),
        forall|k: int| 0 <= k < i ==> !key_has_ip((#[trigger] s[k]).0@, ip),
    ensures
        first_ip_key(s, ip) == i,
    decreases s.len(),
{
    if s.len() > 0 && i > 0 {
        assert(!key_has_ip(s[0].0@, ip));
        assert forall|k: int| 0 <= k < i - 1 implies !key_has_ip((#[trigger] s.drop_first()[k]).0@, ip) by {
            assert(s.drop_first()[k] == s[k + 1]);
        }
        lemma_first_ip_key_is(s.drop_first(), ip, i - 1);
    }
}

proof fn lemma_select_step<T>(s: Seq<T>, flags: Seq<bool>, i: int)
    requires
        0 <= i < s.len(),
        s.len() == flags.len(),
    ensures
        select(s.subrange(i, s.len() as int), flags.subrange(i, flags.len() as int)) == (if flags[i] {
            seq![s[i]] + select(s.subrange(i + 1, s.len() as int), flags.subrange(i + 1, flags.len() as int))
        } else {
            select(s.subrange(i + 1, s.len() as int), flags.subrange(i + 1, flags.len() as int))
        }),
{
    assert(s.subrange(i, s.len() as int).drop_first() =~= s.subrange(i + 1, s.len() as int));
    assert(flags.subrange(i, flags.len() as int).drop_first() =~= flags.subrange(i + 1, flags.len() as int));
}

proof fn lemma_select_members<T>(s: Seq<T>, flags: Seq<bool>, p: spec_fn(T) -> bool)
    requires
        s.len() == flags.len(),
        forall|i: int| 0 <= i < s.len() && #[trigger] flags[i] ==> p(s[i]),
    ensures
        forall|j: int| 0 <= j < select(s, flags).len() ==> p(#[trigger] select(s, flags)[j]),
    decreases s.len(),
{
    if s.len() > 0 {
        assert forall|i: int| 0 <= i < s.drop_first().len() && #[trigger] flags.drop_first()[i] implies p(s.drop_first()[i]) by {
            assert(flags.drop_first()[i] == flags[i + 1]);
        }
        lemma_select_members(s.drop_first(), flags.drop_first(), p);
        if flags[0] {
            let rest = select(s.drop_first(), flags.drop_first());
            assert forall|j: int| 0 <= j < select(s, flags).len() implies p(#[trigger] select(s, flags)[j]) by {
                if j > 0 {
                    assert(select(s, flags)[j] == rest[j - 1]);
                }
            }
        }
    }
}

proof fn lemma_select_keeps<T>(s: Seq<T>, flags: Seq<bool>)
    requires
        s.len() == flags.len(),
    ensures
        forall|i: int| 0 <= i < s.len() && #[trigger] flags[i] ==> select(s, flags).contains(s[i]),
    decreases s.len(),
{
    if s.len() > 0 {
        lemma_select_keeps(s.drop_first(), flags.drop_first());
        let rest = select(s.drop_first(), flags.drop_first());
        assert forall|i: int| 0 <= i < s.len() && #[trigger] flags[i] implies select(s, flags).contains(s[i]) by {
            if i == 0 {
                assert(select(s, flags) == seq![s[0]] + rest);
                assert(select(s, flags)[0] == s[0]);
            } else {
                assert(flags.drop_first()[i - 1] == flags[i]);
                assert(s.drop_first()[i - 1] == s[i]);
                assert(rest.contains(s[i]));
                let k = choose|k: int| 0 <= k < rest.len() && rest[k] == s[i];
                if flags[0] {
                    assert(select(s, flags) == seq![s[0]] + rest);
                    assert(select(s, flags)[k + 1] == rest[k]);
                } else {
                    assert(select(s, flags) == rest);
                }
            }
        }
    }
}

/// Whether `e` is an entry of `s` whose flag is set.
pub open spec fn flagged_entry<T>(s: Seq<T>, flags: Seq<bool>, e: T) -> bool {
    exists|i: int| 0 <= i < s.len() && flags[i] && #[trigger] s[i] == e
}

/// Whether `key` is `ip` followed by `:`.
fn has_ip_prefix(key: &str, ip: &str) -> (r: bool)
    ensures
        r == key_has_ip(key@, ip@),
{
    let n = key.unicode_len();
    let m = ip.unicode_len();
    if n <= m {
        return false;
    }
    let mut q: usize = 0;
    while q < m
        invariant
            n == key@.len(),
            m == ip@.len(),
            m < n,
            q <= m,
            forall|p: int| 0 <= p < q ==> key@[p] == ip@[p],
        decreases m - q,
    {
        if key.get_char(q) != ip.get_char(q) {
            assert(key@.subrange(0, m as int)[q as int] != ip@[q as int]);
            return false;
        }
        q = q + 1;
    }
    assert(key@.subrange(0, m as int) =~= ip@);
    key.get_char(m) == ':'
}

/// Whether two strings hold the same characters.
fn same_text(a: &str, b: &str) -> (r: bool)
    ensures
        r == (a@ == b@),
{
    let a_owned = a.to_owned();
    let b_owned = b.to_owned();
    a_owned == b_owned
}

/// Live connections keyed by `ip:port`, in order of registration.
pub struct ConnectionRegistry<C> {
    entries: Vec<(String, C)>,
}

impl<C> View for ConnectionRegistry<C> {
    type V = Seq<(String, C)>;

    closed spec fn view(&self) -> Seq<(String, C)> {
        self.entries@
    }
}

impl<C> ConnectionRegistry<C> {
    /// An empty registry.
    pub fn new() -> (r: Self)
        ensures
            r@ == Seq::<(String, C)>::empty(),
    {
        ConnectionRegistry { entries: Vec::new() }
    }

    /// Number of connections.
    pub fn len(&self) -> (r: usize)
        ensures
            r == self@.len(),
    {
        self.entries.len()
    }

    /// Keeps the entries whose flag is set.
    fn retain_flagged(&mut self, flags: &Vec<bool>)
        requires
            flags@.len() == old(self)@.len(),
        ensures
            final(self)@ == select(old(self)@, flags@),
    {
        let ghost s = self@;
        let mut i = self.entries.len();
        assert(s.subrange(i as int, s.len() as int) =~= Seq::<(String, C)>::empty());
        assert(s.subrange(0, i as int) =~= s);
        assert(select(Seq::<(String, C)>::empty(), flags@.subrange(i as int, flags@.len() as int)) =~= Seq::<(String, C)>::empty());
        while i > 0
            invariant
                i <= s.len(),
                flags@.len() == s.len(),
                self@ == s.subrange(0, i as int) + select(
                    s.subrange(i as int, s.len() as int),
                    flags@.subrange(i as int, flags@.len() as int),
                ),
            decreases i,
        {
            i = i - 1;
            let ghost rest = select(
                s.subrange(i + 1, s.len() as int),
                flags@.subrange(i + 1, flags@.len() as int),
            );
            proof {
                lemma_select_step(s, flags@, i as int);
                assert(s.subrange(0, i + 1) =~= s.subrange(0, i as int).push(s[i as int]));
            }
            if !flags[i] {
                self.entries.remove(i);
                assert(self@ =~= s.subrange(0, i as int) + rest);
            } else {
                assert(self@ =~= s.subrange(0, i as int) + (seq![s[i as int]] + rest));
            }
        }
        assert(s.subrange(0, s.len() as int) =~= s);
        assert(flags@.subrange(0, flags@.len() as int) =~= flags@);
        assert(self@ =~= select(s, flags@));
    }

    /// Registers a connection under `key`, replacing any entry with the same
    /// key.
    pub fn insert(&mut self, key: String, conn: C)
        ensures
            final(self)@ == select(
                old(self)@,
                Seq::new(old(self)@.len(), |i: int| old(self)@[i].0@ != key@),
            ).push((key, conn)),
    {
        self.remove_connection(key.as_str());
        self.entries.push((key, conn));
    }

    /// The connection registered under exactly `id`.
    pub fn get_connection(&self, id: &str) -> (r: Option<&C>)
        ensures
            first_key(self@, id@) < self@.len() ==> r == Some(&self@[first_key(self@, id@)].1),
            first_key(self@, id@) >= self@.len() ==> r is None,
    {
        let mut i: usize = 0;
        while i < self.entries.len()
            invariant
                i <= self@.len(),
                forall|k: int| 0 <= k < i ==> (#[trigger] self@[k]).0@ != id@,
            decreases self@.len() - i,
        {
            if same_text(self.entries[i].0.as_str(), id) {
                proof {
                    lemma_first_key_is(self@, id@, i as int);
                }
                return Some(&self.entries[i].1);
            }
            i = i + 1;
        }
        proof {
            lemma_first_key_is(self@, id@, i as int);
        }
        None
    }

    /// Finds a connection by exact key, or else by address when `peer_id`
    /// is a bare IP.
    pub fn find_connection(&self, peer_id: &str) -> (r: Option<&C>)
        ensures
            first_key(self@, peer_id@) < self@.len() ==> r == Some(&self@[first_key(self@, peer_id@)].1),
            first_key(self@, peer_id@) >= self@.len() && first_ip_key(self@, peer_id@) < self@.len()
                ==> r == Some(&self@[first_ip_key(self@, peer_id@)].1),
            first_key(self@, peer_id@) >= self@.len() && first_ip_key(self@, peer_id@) >= self@.len()
                ==> r is None,
    {
        if let Some(c) = self.get_connection(peer_id) {
            return Some(c);
        }
        let mut i: usize = 0;
        while i < self.entries.len()
            invariant
                i <= self@.len(),
                first_key(self@, peer_id@) >= self@.len(),
                forall|k: int| 0 <= k < i ==> !key_has_ip((#[trigger] self@[k]).0@, peer_id@),
            decreases self@.len() - i,
        {
            if has_ip_prefix(self.entries[i].0.as_str(), peer_id) {
                proof {
                    lemma_first_ip_key_is(self@, peer_id@, i as int);
                }
                return Some(&self.entries[i].1);
            }
            i = i + 1;
        }
        proof {
            lemma_first_ip_key_is(self@, peer_id@, i as int);
        }
        None
    }

    /// Removes the connection registered under exactly `id`.
    pub fn remove_connection(&mut self, id: &str)
        ensures
            final(self)@ == select(old(self)@, Seq::new(old(self)@.len(), |i: int| old(self)@[i].0@ != id@)),
            forall|j: int| 0 <= j < final(self)@.len() ==> (#[trigger] final(self)@[j]).0@ != id@,
    {
        let ghost s = self@;
        let mut flags: Vec<bool> = Vec::new();
        let mut i: usize = 0;
        while i < self.entries.len()
            invariant
                self@ == s,
                i <= s.len(),
                flags@ == Seq::new(i as nat, |k: int| s[k].0@ != id@),
            decreases s.len() - i,
        {
            flags.push(!same_text(self.entries[i].0.as_str(), id));
            i = i + 1;
        }
        proof {
            lemma_select_members(s, flags@, |e: (String, C)| e.0@ != id@);
        }
        self.retain_flagged(&flags);
    }

    /// Removes every connection whose transport has closed, given one
    /// liveness flag per entry: every remaining entry was alive, and every
    /// alive entry remains.
    pub fn cleanup_dead_connections(&mut self, alive: &Vec<bool>)
        requires
            alive@.len() == old(self)@.len(),
        ensures
            final(self)@ == select(old(self)@, alive@),
            forall|j: int|
                0 <= j < final(self)@.len() ==> flagged_entry(old(self)@, alive@, #[trigger] final(self)@[j]),
            forall|i: int| 0 <= i < old(self)@.len() && #[trigger] alive@[i] ==> final(self)@.contains(old(self)@[i]),
    {
        let ghost s = self@;
        proof {
            assert forall|i: int| 0 <= i < s.len() && #[trigger] alive@[i] implies exists|j: int|
                0 <= j < s.len() && alive@[j] && #[trigger] s[j] == s[i] by {
                assert(0 <= i < s.len() && alive@[i] && s[i] == s[i]);
            }
            lemma_select_members(
                s,
                alive@,
                |e: (String, C)| exists|j: int| 0 <= j < s.len() && alive@[j] && #[trigger] s[j] == e,
            );
            lemma_select_keeps(s, alive@);
        }
        self.retain_flagged(alive);
        proof {
            assert forall|j: int| 0 <= j < self@.len() implies flagged_entry(s, alive@, #[trigger] self@[j]) by {
                let e = self@[j];
                assert(select(s, alive@)[j] == e);
                let i = choose|i: int| 0 <= i < s.len() && alive@[i] && #[trigger] s[i] == e;
            }
        }
    }

    /// Removes every connection to address `ip` (keys `ip` or `ip:port`).
    pub fn remove_connection_by_ip(&mut self, ip: &str)
        ensures
            final(self)@ == select(
                old(self)@,
                Seq::new(old(self)@.len(), |i: int| !key_matches(old(self)@[i].0@, ip@)),
            ),
            forall|j: int| 0 <= j < final(self)@.len() ==> !key_matches((#[trigger] final(self)@[j]).0@, ip@),
    {
        let ghost s = self@;
        let mut flags: Vec<bool> = Vec::new();
        let mut i: usize = 0;
        while i < self.entries.len()
            invariant
                self@ == s,
                i <= s.len(),
                flags@ == Seq::new(i as nat, |k: int| !key_matches(s[k].0@, ip@)),
            decreases s.len() - i,
        {
            let key = self.entries[i].0.as_str();
            let matches_ip = same_text(key, ip) || has_ip_prefix(key, ip);
            flags.push(!matches_ip);
            i = i + 1;
        }
        proof {
            lemma_select_members(s, flags@, |e: (String, C)| !key_matches(e.0@, ip@));
        }
        self.retain_flagged(&flags);
    }

    /// Removes every connection.
    pub fn clear(&mut self)
        ensures
            final(self)@ == Seq::<(String, C)>::empty(),
    {
        self.entries = Vec::new();
    }

    /// The registered keys, in order.
    pub fn keys(&self) -> (r: Vec<String>)
        ensures
            r@.len() == self@.len(),
            forall|i: int| 0 <= i < r@.len() ==> #[trigger] r@[i] == self@[i].0,
    {
        let mut out: Vec<String> = Vec::new();
        let mut i: usize = 0;
        while i < self.entries.len()
            invariant
                i <= self@.len(),
                out@.len() == i,
                forall|k: int| 0 <= k < i ==> #[trigger] out@[k] == self@[k].0,
            decreases self@.len() - i,
        {
            out.push(self.entries[i].0.clone());
            i = i + 1;
        }
        out
    }

    /// The connection to use for a send to `peer_id`: dead connections are
    /// pruned first (one liveness flag per entry), then the peer is looked
    /// up. Fails when no live connection matches.
    pub fn connection_for_send(&mut self, peer_id: &str, alive: &Vec<bool>) -> (r: Result<&C, NetworkError>)
        requires
            alive@.len() == old(self)@.len(),
        ensures
            final(self)@ == select(old(self)@, alive@),
            r matches Ok(c) ==> exists|j: int|
                0 <= j < old(self)@.len() && alive@[j] && #[trigger] old(self)@[j].1 == *c && key_matches(
                    old(self)@[j].0@,
                    peer_id@,
                ),
            r is Err ==> (r matches Err(NetworkError::ConnectionFailed(_))),
            r is Err ==> first_key(final(self)@, peer_id@) >= final(self)@.len() && first_ip_key(
                final(self)@,
                peer_id@,
            ) >= final(self)@.len(),
    {
        let ghost s = self@;
        proof {
            assert forall|i: int| 0 <= i < s.len() && #[trigger] alive@[i] implies exists|j: int|
                0 <= j < s.len() && alive@[j] && #[trigger] s[j] == s[i] by {
                assert(0 <= i < s.len() && alive@[i] && s[i] == s[i]);
            }
            lemma_select_members(
                s,
                alive@,
                |e: (String, C)| exists|j: int| 0 <= j < s.len() && alive@[j] && #[trigger] s[j] == e,
            );
        }
        self.cleanup_dead_connections(alive);
        match self.find_connection(peer_id) {
            Some(c) => {
                proof {
                    lemma_first_nonneg(self@, peer_id@);
                    lemma_first_found(self@, peer_id@);
                    let t = self@;
                    let k = if first_key(t, peer_id@) < t.len() {
                        first_key(t, peer_id@)
                    } else {
                        first_ip_key(t, peer_id@)
                    };
                    assert(0 <= k < t.len());
                    assert(t[k].1 == *c);
                    let j = choose|j: int| 0 <= j < s.len() && alive@[j] && #[trigger] s[j] == t[k];
                    assert(s[j].1 == *c);
                    assert(key_matches(s[j].0@, peer_id@));
                }
                Ok(c)
            },
            None => Err(NetworkError::ConnectionFailed("no live connection to the peer".to_string())),
        }
    }
}

/// The bytes of one length-prefixed payload on a stream.
pub open spec fn framed(data: Seq<u8>) -> Seq<u8> {
    be32(data.len() as u32) + data
}

/// Prefixes a payload with its length as four big-endian bytes.
pub fn frame_payload(data: &[u8]) -> (r: Vec<u8>)
    requires
        data@.len() <= u32::MAX,
    ensures
        r@ == framed(data@),
{
    let mut out: Vec<u8> = Vec::new();
    push_be32(&mut out, data.len() as u32);
    out.extend_from_slice(data);
    assert(out@ =~= framed(data@));
    out
}

/// Splits the first complete length-prefixed payload off the front of
/// `buf`: the payload and the bytes after it, or `None` when incomplete.
pub open spec fn split_framed(buf: Seq<u8>) -> Option<(Seq<u8>, Seq<u8>)> {
    if buf.len() < 4 || buf.len() < 4 + read_be32(buf, 0) {
        None
    } else {
        let n = read_be32(buf, 0) as int;
        Some((buf.subrange(4, 4 + n), buf.subrange(4 + n, buf.len() as int)))
    }
}

/// Takes one complete length-prefixed payload out of received bytes, if
/// there is one.
pub fn try_take_framed(buf: &mut Vec<u8>) -> (r: Option<Vec<u8>>)
    ensures
        match split_framed(old(buf)@) {
            Some((p, rest)) => r matches Some(v) && v@ == p && final(buf)@ == rest,
            None => r is None && final(buf)@ == old(buf)@,
        },
{
    let n = buf.len();
    if n < 4 {
        return None;
    }
    let len = get_be32(buf.as_slice(), 0) as usize;
    if n - 4 < len {
        return None;
    }
    let payload = vstd::slice::slice_to_vec(vstd::slice::slice_subrange(buf.as_slice(), 4, 4 + len));
    let rest = vstd::slice::slice_to_vec(vstd::slice::slice_subrange(buf.as_slice(), 4 + len, n));
    *buf = rest;
    Some(payload)
}

/// A framed payload followed by more bytes splits back into the payload and
/// those bytes.
pub proof fn lemma_framed_roundtrip(data: Seq<u8>, rest: Seq<u8>)
    requires
        data.len() <= u32::MAX,
    ensures
        split_framed(framed(data) + rest) == Some((data, rest)),
{
    let n = data.len() as u32;
    lemma_be32_roundtrip(n);
    let s = framed(data) + rest;
    assert(s.subrange(0, 4) =~= be32(n));
    assert(s[0] == be32(n)[0] && s[1] == be32(n)[1] && s[2] == be32(n)[2] && s[3] == be32(n)[3]);
    assert(s.subrange(4, 4 + n as int) =~= data);
    assert(s.subrange(4 + n as int, s.len() as int) =~= rest);
}

} // verus!
