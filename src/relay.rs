use crate::error::GossipError;
use crate::nostr::unix_now;
use crate::url::RelayUrl;
use vstd::prelude::*;

verus! {

/// The retired ADVERTISE usage bit. Records written under old schema
/// versions may still hold it; it is masked out wherever usage is read.
pub const ADVERTISE: u64 = 4;

/// The usage bits that count as an assigned role (all but SPAMSAFE).
pub const ANY_ROLE: u64 = 187;

/// Persisted metadata of one relay.
#[derive(Debug)]
pub struct Relay3 {
    /// The canonical address, the record's identity.
    pub url: RelayUrl,
    /// How many times a connection succeeded.
    pub success_count: u64,
    /// How many times a connection failed, or the relay dropped us.
    pub failure_count: u64,
    /// When we last connected (seconds since 1970).
    pub last_connected_at: Option<u64>,
    /// When the relay last ended the stored events of the general feed.
    pub last_general_eose_at: Option<u64>,
    /// User-assigned priority from 0 to 9; 0 means never select.
    pub rank: u64,
    /// Whether the user interface hides this relay; selection ignores it.
    pub hidden: bool,
    /// The stored usage bits. Read them through `get_usage_bits` or
    /// `has_usage_bits`, which mask out the retired bit.
    pub usage_bits: u64,
    /// The relay's cached information document, as JSON text.
    pub nip11: Option<String>,
    /// When we last tried to fetch the information document.
    pub last_attempt_nip11: Option<u64>,
    /// Connection policy: `None` ask, `Some(false)` never, `Some(true)` always.
    pub allow_connect: Option<bool>,
    /// Authentication policy: `None` ask, `Some(false)` never, `Some(true)` always.
    pub allow_auth: Option<bool>,
    /// The relay is left out of every selection up to and including this time.
    pub avoid_until: Option<i64>,
}

impl Relay3 {
    pub const READ: u64 = 1;
    pub const WRITE: u64 = 2;
    pub const INBOX: u64 = 8;
    pub const OUTBOX: u64 = 16;
    pub const DISCOVER: u64 = 32;
    pub const SPAMSAFE: u64 = 64;
    pub const DM: u64 = 128;

    /// The usage bits with the retired bit masked out.
    pub open spec fn usage(self) -> u64 {
        self.usage_bits & !ADVERTISE
    }

    /// Whether every bit of `bits` is a usage of this relay.
    pub open spec fn has_usage(self, bits: u64) -> bool {
        self.usage() & bits == bits
    }

    /// Whether the relay is avoided at time `now`.
    pub open spec fn avoided_at(self, now: i64) -> bool {
        match self.avoid_until {
            Some(until) => until >= now,
            None => false,
        }
    }

    /// Number of connection attempts.
    pub open spec fn attempt_count(self) -> int {
        self.success_count + self.failure_count
    }

    /// The success rate as a fraction (numerator, denominator): one half
    /// while nothing was attempted.
    pub open spec fn rate(self) -> (int, int) {
        if self.attempt_count() == 0 {
            (1, 2)
        } else {
            (self.success_count as int, self.attempt_count())
        }
    }

    /// Whether the success rate exceeds one half.
    pub open spec fn rate_above_half(self) -> bool {
        2 * self.rate().0 > self.rate().1
    }

    /// Whether the relay is worth advertising at time `now`.
    pub open spec fn good_for_advertise_at(self, now: i64) -> bool {
        !self.avoided_at(now) && (self.has_usage(Relay3::INBOX) || self.has_usage(Relay3::OUTBOX)
            || self.has_usage(Relay3::DISCOVER) || (self.rank > 0 && self.rate_above_half()
            && self.success_count > 15))
    }

    /// The weight of a relay's roles when relays are sorted: READ, WRITE,
    /// INBOX, OUTBOX and DM each add a distinct power of two, heavier in
    /// that order; DISCOVER and SPAMSAFE add nothing.
    pub open spec fn sort_weight(self) -> int {
        (if self.has_usage(Relay3::READ) { 64int } else { 0int })
            + (if self.has_usage(Relay3::WRITE) { 32int } else { 0int })
            + (if self.has_usage(Relay3::INBOX) { 16int } else { 0int })
            + (if self.has_usage(Relay3::OUTBOX) { 8int } else { 0int })
            + (if self.has_usage(Relay3::DM) { 4int } else { 0int })
    }

    /// A fresh record: rank 3, everything else empty.
    pub fn new(url: RelayUrl) -> (r: Relay3)
        ensures
            r.url == url,
            r.success_count == 0,
            r.failure_count == 0,
            r.last_connected_at is None,
            r.last_general_eose_at is None,
            r.rank == 3,
            !r.hidden,
            r.usage_bits == 0,
            r.nip11 is None,
            r.last_attempt_nip11 is None,
            r.allow_connect is None,
            r.allow_auth is None,
            r.avoid_until is None,
    {
        Relay3 {
            url,
            success_count: 0,
            failure_count: 0,
            last_connected_at: None,
            last_general_eose_at: None,
            rank: 3,
            hidden: false,
            usage_bits: 0,
            nip11: None,
            last_attempt_nip11: None,
            allow_connect: None,
            allow_auth: None,
            avoid_until: None,
        }
    }

    /// Sets the user's rank for the relay; a rank above 9 is refused as
    /// invalid input and leaves the record unchanged.
    pub fn set_rank(&mut self, rank: u64) -> (r: Result<(), GossipError>)
        ensures
            rank <= 9 ==> r is Ok && *final(self) == (Relay3 { rank, ..*old(self) }),
            rank > 9 ==> r == Err::<(), GossipError>(GossipError::InvalidInput) && *final(self)
                == *old(self),
    {
        if rank > 9 {
            return Err(GossipError::InvalidInput);
        }
        self.rank = rank;
        Ok(())
    }

    /// The usage bits, without the retired bit.
    pub fn get_usage_bits(&self) -> (r: u64)
        ensures
            r == self.usage(),
    {
        self.usage_bits & !ADVERTISE
    }

    /// The role weight that relays are sorted by.
    pub fn get_usage_bits_for_sorting(&self) -> (r: u64)
        ensures
            r == self.sort_weight(),
    {
        let mut output: u64 = 0;
        if self.has_usage_bits(Relay3::READ) {
            output = output + 64;
        }
        if self.has_usage_bits(Relay3::WRITE) {
            output = output + 32;
        }
        if self.has_usage_bits(Relay3::INBOX) {
            output = output + 16;
        }
        if self.has_usage_bits(Relay3::OUTBOX) {
            output = output + 8;
        }
        if self.has_usage_bits(Relay3::DM) {
            output = output + 4;
        }
        output
    }
    /// Adds usage bits; the retired bit is never set again.
    pub fn set_usage_bits(&mut self, bits: u64)
        ensures
            final(self).usage_bits == old(self).usage_bits | (bits & !ADVERTISE),
            *final(self) == (Relay3 { usage_bits: final(self).usage_bits, ..*old(self) }),
    {
        self.usage_bits = self.usage_bits | (bits & !ADVERTISE);
    }

    /// Removes usage bits.
    pub fn clear_usage_bits(&mut self, bits: u64)
        ensures
            final(self).usage_bits == old(self).usage_bits & !bits,
            *final(self) == (Relay3 { usage_bits: final(self).usage_bits, ..*old(self) }),
    {
        self.usage_bits = self.usage_bits & !bits;
    }

    /// Sets or clears a usage bit.
    pub fn adjust_usage_bit(&mut self, bit: u64, value: bool)
        ensures
            value ==> final(self).usage_bits == old(self).usage_bits | (bit & !ADVERTISE),
            !value ==> final(self).usage_bits == old(self).usage_bits & !bit,
            *final(self) == (Relay3 { usage_bits: final(self).usage_bits, ..*old(self) }),
    {
        if value {
            self.set_usage_bits(bit);
        } else {
            self.clear_usage_bits(bit);
        }
    }

    /// Whether the relay has every usage in `bits`.
    pub fn has_usage_bits(&self, bits: u64) -> (r: bool)
        ensures
            r == self.has_usage(bits),
    {
        self.get_usage_bits() & bits == bits
    }

    /// Whether the relay has any role other than SPAMSAFE.
    pub fn has_any_usage_bit(&self) -> (r: bool)
        ensures
            r == (self.usage() & ANY_ROLE != 0),
    {
        self.get_usage_bits() & ANY_ROLE != 0
    }

    /// Number of connection attempts.
    pub fn attempts(&self) -> (r: u64)
        requires
            self.attempt_count() <= u64::MAX,
        ensures
            r == self.attempt_count(),
    {
        self.success_count + self.failure_count
    }

    /// The success rate as (numerator, denominator); one half while nothing
    /// was attempted.
    pub fn success_rate(&self) -> (r: (u64, u64))
        requires
            self.attempt_count() <= u64::MAX,
        ensures
            r.0 == self.rate().0,
            r.1 == self.rate().1,
    {
        let attempts = self.attempts();
        if attempts == 0 {
            return (1, 2);
        }
        (self.success_count, attempts)
    }

    /// Whether the relay is avoided at time `now`.
    pub fn should_avoid_at(&self, now: i64) -> (r: bool)
        ensures
            r == self.avoided_at(now),
    {
        match self.avoid_until {
            Some(until) => until >= now,
            None => false,
        }
    }

    /// Whether the relay is avoided now, by the system clock.
    pub fn should_avoid(&self) -> (r: Result<bool, GossipError>)
        ensures
            match r {
                Ok(b) => exists|now: i64| b == #[trigger] self.avoided_at(now),
                Err(e) => e == GossipError::Clock,
            },
            self.avoid_until is None ==> r == Ok::<bool, GossipError>(false),
    {
        if self.avoid_until.is_none() {
            assert(false == self.avoided_at(0));
            return Ok(false);
        }
        match unix_now() {
            Ok(now) => Ok(self.should_avoid_at(now)),
            Err(_) => Err(GossipError::Clock),
        }
    }

    /// Whether the relay is worth advertising at time `now`: not avoided,
    /// and either designated (INBOX, OUTBOX or DISCOVER) or proven reliable
    /// (rank above 0, success rate above one half, more than 15 successes).
    pub fn is_good_for_advertise_at(&self, now: i64) -> (r: bool)
        ensures
            r == self.good_for_advertise_at(now),
    {
        if self.should_avoid_at(now) {
            return false;
        }
        self.has_usage_bits(Relay3::INBOX) || self.has_usage_bits(Relay3::OUTBOX)
            || self.has_usage_bits(Relay3::DISCOVER) || (self.rank > 0 && self.success_count
            > self.failure_count && self.success_count > 15)
    }

    /// Whether the relay is worth advertising now, by the system clock.
    pub fn is_good_for_advertise(&self) -> (r: Result<bool, GossipError>)
        ensures
            match r {
                Ok(b) => exists|now: i64| b == #[trigger] self.good_for_advertise_at(now),
                Err(e) => e == GossipError::Clock,
            },
            self.avoid_until is None ==> r == Ok::<bool, GossipError>(self.good_for_advertise_at(0)),
    {
        if self.avoid_until.is_none() {
            return Ok(self.is_good_for_advertise_at(0));
        }
        match unix_now() {
            Ok(now) => Ok(self.is_good_for_advertise_at(now)),
            Err(_) => Err(GossipError::Clock),
        }
    }
}


impl Clone for Relay3 {
    fn clone(&self) -> (r: Self)
        ensures
            r == *self,
    {
        Relay3 {
            url: self.url.clone(),
            success_count: self.success_count,
            failure_count: self.failure_count,
            last_connected_at: self.last_connected_at,
            last_general_eose_at: self.last_general_eose_at,
            rank: self.rank,
            hidden: self.hidden,
            usage_bits: self.usage_bits,
            nip11: match &self.nip11 {
                Some(doc) => Some(doc.clone()),
                None => None,
            },
            last_attempt_nip11: self.last_attempt_nip11,
            allow_connect: self.allow_connect,
            allow_auth: self.allow_auth,
            avoid_until: self.avoid_until,
        }
    }
}

/// Two records are the same when all fields agree, usage compared without
/// the retired bit.
pub open spec fn same_record(a: Relay3, b: Relay3) -> bool {
    &&& a.url@ == b.url@
    &&& a.success_count == b.success_count
    &&& a.failure_count == b.failure_count
    &&& a.last_connected_at == b.last_connected_at
    &&& a.last_general_eose_at == b.last_general_eose_at
    &&& a.rank == b.rank
    &&& a.hidden == b.hidden
    &&& a.usage() == b.usage()
    &&& match (a.nip11, b.nip11) {
        (Some(x), Some(y)) => x@ == y@,
        (None, None) => true,
        _ => false,
    }
    &&& a.last_attempt_nip11 == b.last_attempt_nip11
    &&& a.allow_connect == b.allow_connect
    &&& a.allow_auth == b.allow_auth
    &&& a.avoid_until == b.avoid_until
}

fn same_text(a: &Option<String>, b: &Option<String>) -> (r: bool)
    ensures
        r == match (*a, *b) {
            (Some(x), Some(y)) => x@ == y@,
            (None, None) => true,
            _ => false,
        },
{
    match (a, b) {
        (Some(x), Some(y)) => *x == *y,
        (None, None) => true,
        _ => false,
    }
}

impl PartialEq for Relay3 {
    fn eq(&self, other: &Relay3) -> (r: bool) {
        self.url == other.url && self.success_count == other.success_count
            && self.failure_count == other.failure_count && self.last_connected_at
            == other.last_connected_at && self.last_general_eose_at == other.last_general_eose_at
            && self.rank == other.rank && self.hidden == other.hidden && self.get_usage_bits()
            == other.get_usage_bits() && same_text(&self.nip11, &other.nip11)
            && self.last_attempt_nip11 == other.last_attempt_nip11 && self.allow_connect
            == other.allow_connect && self.allow_auth == other.allow_auth && self.avoid_until
            == other.avoid_until
    }
}

impl vstd::std_specs::cmp::PartialEqSpecImpl for Relay3 {
    open spec fn obeys_eq_spec() -> bool {
        true
    }

    open spec fn eq_spec(&self, other: &Relay3) -> bool {
        same_record(*self, *other)
    }
}

/// The usage that a record reports never holds the retired bit, whatever
/// was stored.
pub proof fn lemma_usage_never_retired(r: Relay3)
    ensures
        r.usage() & ADVERTISE == 0,
{
    let bits = r.usage_bits;
    assert(bits & !4u64 & 4u64 == 0) by (bit_vector);
}

/// The success rate lies between 0 and 1, and is exactly one half while
/// nothing was attempted.
pub proof fn lemma_success_rate_bounds(r: Relay3)
    ensures
        0 <= r.rate().0 <= r.rate().1,
        r.rate().1 > 0,
        r.attempt_count() == 0 ==> r.rate() == (1int, 2int),
{
}

/// A relay is avoided exactly while its stored limit exists and is not
/// earlier than the time asked about; once time passes the limit it is no
/// longer avoided, with no change to the record.
pub proof fn lemma_avoidance_expires(r: Relay3, earlier: i64, later: i64)
    requires
        earlier <= later,
    ensures
        r.avoided_at(later) <==> (r.avoid_until is Some && r.avoid_until->Some_0 >= later),
        r.avoided_at(later) ==> r.avoided_at(earlier),
        r.avoid_until is Some && r.avoid_until->Some_0 < earlier ==> !r.avoided_at(later),
{
}

} // verus!
