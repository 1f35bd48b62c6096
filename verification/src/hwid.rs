//! The device fingerprint: a stable, opaque identifier derived from
//! whatever hardware signals the platform gave up. It tells devices apart
//! coarsely and is no credential.

use std::collections::hash_map::DefaultHasher;
use std::hash::{Hash, Hasher};
use vstd::prelude::*;
use vstd::std_specs::hash::DefaultHasherAdditionalSpecFns;
use vstd::string::*;
use crate::text::{chars_of, join_with, joined, opt_text, string_from_chars, views_of};

verus! {

/// The writes that hashing a string feeds to a hasher.
pub uninterp spec fn str_hash_writes(s: Seq<char>) -> Seq<Seq<u8>>;

/// Feeds a string to a hasher through `Hash::hash` for `str`. What reaches
/// the hasher depends on the string's characters alone and is added after
/// what the hasher was fed before.
#[verifier::external_body]
fn feed_str(hasher: &mut DefaultHasher, s: &str)
    ensures
        final(hasher)@ == old(hasher)@ + str_hash_writes(s@),
{
    s.hash(hasher);
}

/// The user's login name, from `whoami::username`. Nothing is known of it.
#[verifier::external_body]
fn local_username() -> (name: String) {
    whoami::username()
}

/// The machine's host name, from `hostname::get`, or `None` where the
/// system would not tell. Nothing is known of it.
#[verifier::external_body]
fn local_hostname() -> (name: Option<String>) {
    match hostname::get() {
        Ok(h) => Some(h.to_string_lossy().to_string()),
        Err(_) => None,
    }
}

/// The 64-bit hash of a string under a freshly made default hasher.
pub open spec fn text_hash(s: Seq<char>) -> u64 {
    DefaultHasher::spec_finish(str_hash_writes(s))
}

/// The lower-case hexadecimal digit for a value below sixteen.
pub open spec fn hex_digit(n: int) -> char {
    "0123456789abcdef"@[n]
}

/// The four bits of `x` that its hexadecimal digit `i` writes, the most
/// significant digit having index 0.
pub open spec fn nibble(x: u64, i: int) -> u64 {
    (x >> ((60 - 4 * i) as u64)) & 0xf
}

/// `x` as sixteen lower-case hexadecimal digits, padded with zeros.
pub open spec fn hex16(x: u64) -> Seq<char> {
    Seq::new(16, |i: int| hex_digit(nibble(x, i) as int))
}

/// The fingerprint of a string: the hash of the string, then the hash of
/// the string read backwards, each as sixteen hexadecimal digits.
pub open spec fn fingerprint(s: Seq<char>) -> Seq<char> {
    hex16(text_hash(s)) + hex16(text_hash(s.reverse()))
}

/// Hashes a string with a freshly made default hasher.
fn hash_text(s: &str) -> (h: u64)
    ensures
        h == text_hash(s@),
{
    let mut hasher: DefaultHasher = DefaultHasher::new();
    feed_str(&mut hasher, s);
    assert(Seq::<Seq<u8>>::empty() + str_hash_writes(s@) =~= str_hash_writes(s@));
    hasher.finish()
}

/// Appends `x` as sixteen hexadecimal digits.
fn push_hex16(out: &mut Vec<char>, x: u64)
    ensures
        final(out)@ == old(out)@ + hex16(x),
{
    let digits: &str = "0123456789abcdef";
    proof {
        reveal_strlit("0123456789abcdef");
    }
    let mut i: usize = 0;
    while i < 16
        invariant
            i <= 16,
            digits@ == "0123456789abcdef"@,
            digits@.len() == 16,
            out@ == old(out)@ + hex16(x).take(i as int),
        decreases 16 - i,
    {
        let shift: u64 = 60 - 4 * (i as u64);
        let nib: u64 = (x >> shift) & 0xf;
        assert(nib < 16) by (bit_vector)
            requires
                nib == (x >> shift) & 0xf,
        ;
        assert(nib == nibble(x, i as int));
        let c: char = digits.get_char(nib as usize);
        out.push(c);
        i += 1;
        assert(hex16(x).take(i as int) =~= hex16(x).take(i - 1).push(c));
        assert(out@ =~= old(out)@ + hex16(x).take(i as int));
    }
    assert(hex16(x).take(16) =~= hex16(x));
}

/// The string read backwards, character by character.
fn reversed(s: &str) -> (r: String)
    ensures
        r@ == s@.reverse(),
{
    let chars: Vec<char> = chars_of(s);
    let n: usize = chars.len();
    let mut back: Vec<char> = Vec::new();
    let mut i: usize = 0;
    while i < n
        invariant
            i <= n,
            n == chars@.len(),
            back@.len() == i,
            forall|j: int| 0 <= j < i ==> back@[j] == chars@[n - 1 - j],
        decreases n - i,
    {
        back.push(chars[n - 1 - i]);
        i += 1;
    }
    assert(back@ =~= chars@.reverse());
    string_from_chars(&back)
}

/// The fingerprint of `input`.
pub fn hash_string(input: &str) -> (id: String)
    ensures
        id@ == fingerprint(input@),
{
    let hash1: u64 = hash_text(input);
    let backwards: String = reversed(input);
    let hash2: u64 = hash_text(backwards.as_str());
    let mut out: Vec<char> = Vec::new();
    push_hex16(&mut out, hash1);
    push_hex16(&mut out, hash2);
    assert(out@ =~= hex16(hash1) + hex16(hash2));
    string_from_chars(&out)
}

/// Every fingerprint has thirty-two characters.
pub proof fn lemma_fingerprint_len(s: Seq<char>)
    ensures
        fingerprint(s).len() == 32,
{
}

/// The signals that were recovered, in priority order: processor, disk,
/// network adapter, mainboard.
pub open spec fn recovered_signals(
    cpu_id: Option<Seq<char>>,
    disk_serial: Option<Seq<char>>,
    mac_address: Option<Seq<char>>,
    motherboard_serial: Option<Seq<char>>,
) -> Seq<Seq<char>> {
    let a = match cpu_id {
        Some(s) => seq![s],
        None => Seq::<Seq<char>>::empty(),
    };
    let b = match disk_serial {
        Some(s) => a.push(s),
        None => a,
    };
    let c = match mac_address {
        Some(s) => b.push(s),
        None => b,
    };
    match motherboard_serial {
        Some(s) => c.push(s),
        None => c,
    }
}

/// The stand-in signal for a device that gave up no hardware signal: the
/// user name, `@`, and the host name, or `unknown` where there is none.
pub open spec fn fallback_text(username: Seq<char>, hostname: Option<Seq<char>>) -> Seq<char> {
    username + "@"@ + match hostname {
        Some(h) => h,
        None => "unknown"@,
    }
}

/// Builds the stand-in signal from a user name and a host name.
pub fn fallback_id_from(username: &str, hostname: Option<String>) -> (id: String)
    ensures
        id@ == fallback_text(username@, opt_text(hostname)),
{
    let mut id: String = username.to_owned();
    id.append("@");
    match hostname {
        Some(h) => {
            id.append(h.as_str());
        },
        None => {
            id.append("unknown");
        },
    }
    id
}

/// The stand-in signal of this machine, built from the local user and host
/// names as the system reports them.
pub fn generate_fallback_id() -> (id: String)
    ensures
        exists|username: Seq<char>, hostname: Option<Seq<char>>|
            id@ == fallback_text(username, hostname),
{
    let hostname: Option<String> = local_hostname();
    let username: String = local_username();
    let ghost host = opt_text(hostname);
    let id: String = fallback_id_from(username.as_str(), hostname);
    assert(id@ == fallback_text(username@, host));
    id
}

/// The fingerprint of a list of signals, joined with `|`.
pub fn fingerprint_signals(components: &Vec<String>) -> (id: String)
    ensures
        id@ == fingerprint(joined(views_of(components@), "|"@)),
{
    let combined: String = join_with(components, "|");
    hash_string(combined.as_str())
}

/// Whether `id` is the device identifier for these recovered signals: the
/// fingerprint of the signals joined with `|`, or, where there is no
/// signal, the fingerprint of a stand-in built from some user name and
/// host name.
pub open spec fn is_device_id(id: Seq<char>, signals: Seq<Seq<char>>) -> bool {
    if signals.len() > 0 {
        id == fingerprint(joined(signals, "|"@))
    } else {
        exists|username: Seq<char>, hostname: Option<Seq<char>>|
            id == fingerprint(fallback_text(username, hostname))
    }
}

/// Derives the device identifier from the outcome of the four hardware
/// probes. Recovered signals are joined in priority order and
/// fingerprinted; where no probe gave anything, the stand-in signal of this
/// machine is fingerprinted instead.
pub fn generate_hwid(
    cpu_id: Option<String>,
    disk_serial: Option<String>,
    mac_address: Option<String>,
    motherboard_serial: Option<String>,
) -> (id: String)
    ensures
        id@.len() == 32,
        is_device_id(
            id@,
            recovered_signals(
                opt_text(cpu_id),
                opt_text(disk_serial),
                opt_text(mac_address),
                opt_text(motherboard_serial),
            ),
        ),
{
    let ghost signals = recovered_signals(
        opt_text(cpu_id),
        opt_text(disk_serial),
        opt_text(mac_address),
        opt_text(motherboard_serial),
    );
    let mut components: Vec<String> = Vec::new();
    if let Some(s) = cpu_id {
        components.push(s);
    }
    if let Some(s) = disk_serial {
        components.push(s);
    }
    if let Some(s) = mac_address {
        components.push(s);
    }
    if let Some(s) = motherboard_serial {
        components.push(s);
    }
    assert(views_of(components@) =~= signals);
    if components.len() == 0 {
        let fallback: String = generate_fallback_id();
        components.push(fallback);
        assert(views_of(components@) =~= seq![fallback@]);
        assert(joined(views_of(components@), "|"@) == fallback@);
    }
    fingerprint_signals(&components)
}

/// The once-computed device identifier: empty until the first access,
/// fixed from then on.
pub struct DeviceIdentity {
    cached: Option<String>,
}

impl DeviceIdentity {
    /// The identifier, once it has been computed.
    pub closed spec fn value(&self) -> Option<Seq<char>> {
        opt_text(self.cached)
    }

    /// A computed identifier is a fingerprint's thirty-two characters.
    #[verifier::type_invariant]
    spec fn is_fingerprint(&self) -> bool {
        self.cached is Some ==> self.cached->0@.len() == 32
    }

    /// A cell that holds no identifier yet.
    pub fn new() -> (cell: Self)
        ensures
            cell.value() is None,
    {
        DeviceIdentity { cached: None }
    }

    /// The identifier if it has been computed already.
    pub fn cached(&self) -> (id: Option<String>)
        ensures
            opt_text(id) == self.value(),
    {
        match &self.cached {
            Some(s) => Some(s.clone()),
            None => None,
        }
    }
}

/// How one access relates the cell before it, the identifier handed out and
/// the cell after it: a computed identifier is handed out again and kept,
/// and whatever is handed out is what the cell holds from then on.
pub open spec fn access(before: DeviceIdentity, id: Seq<char>, after: DeviceIdentity) -> bool {
    &&& before.value() is Some ==> id == before.value()->0
    &&& after.value() == Some(id)
}

/// The device identifier. The first access computes it from the probe
/// outcomes as `generate_hwid` does and stores it; every later access
/// hands out the stored value, whatever the probes say by then.
pub fn get_hwid(
    cell: &mut DeviceIdentity,
    cpu_id: Option<String>,
    disk_serial: Option<String>,
    mac_address: Option<String>,
    motherboard_serial: Option<String>,
) -> (id: String)
    ensures
        access(*old(cell), id@, *final(cell)),
        id@.len() == 32,
        old(cell).value() is None ==> is_device_id(
            id@,
            recovered_signals(
                opt_text(cpu_id),
                opt_text(disk_serial),
                opt_text(mac_address),
                opt_text(motherboard_serial),
            ),
        ),
{
    proof {
        use_type_invariant(&*cell);
    }
    match &cell.cached {
        Some(known) => known.clone(),
        None => {
            let id: String = generate_hwid(cpu_id, disk_serial, mac_address, motherboard_serial);
            cell.cached = Some(id.clone());
            id
        },
    }
}

/// Two accesses in a row hand out the same identifier, and the cell does
/// not change between the first and any later one.
pub proof fn lemma_identity_is_stable(
    start: DeviceIdentity,
    first: Seq<char>,
    between: DeviceIdentity,
    second: Seq<char>,
    end: DeviceIdentity,
)
    requires
        access(start, first, between),
        access(between, second, end),
    ensures
        second == first,
        end.value() == between.value(),
{
}

} // verus!
