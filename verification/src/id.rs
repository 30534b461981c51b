//! Identifiers that sort by the time of their making: a prefix, an
//! underscore, twelve hexadecimal digits that hold time and counter, and
//! fourteen random characters.

use crate::text::{append, from_chars, has_prefix, starts_with, to_chars};
use std::time::{SystemTime, UNIX_EPOCH};
use vstd::prelude::*;

verus! {

/// What kind of thing an identifier names.
#[derive(Debug, Clone, Copy, PartialEq, Eq, Structural)]
pub enum Prefix {
    Session,
    Message,
    Permission,
    User,
    Part,
}

impl Prefix {
    /// The three letters that identifiers of this kind begin with.
    pub open spec fn text(self) -> Seq<char> {
        match self {
            Prefix::Session => seq!['s', 'e', 's'],
            Prefix::Message => seq!['m', 's', 'g'],
            Prefix::Permission => seq!['p', 'e', 'r'],
            Prefix::User => seq!['u', 's', 'r'],
            Prefix::Part => seq!['p', 'r', 't'],
        }
    }

    /// The three letters that identifiers of this kind begin with.
    pub fn as_str(&self) -> (s: &'static str)
        ensures
            s@ == self.text(),
    {
        proof {
            reveal_strlit("ses");
            reveal_strlit("msg");
            reveal_strlit("per");
            reveal_strlit("usr");
            reveal_strlit("prt");
        }
        let s = match self {
            Prefix::Session => "ses",
            Prefix::Message => "msg",
            Prefix::Permission => "per",
            Prefix::User => "usr",
            Prefix::Part => "prt",
        };
        assert(s@ =~= self.text());
        s
    }
}

/// The number of random characters at the end of an identifier.
pub const SUFFIX_LENGTH: usize = 14;

/// Two to the power of 48: one more than the largest value that the twelve
/// hexadecimal digits hold.
pub open spec fn time_field_limit() -> int {
    0x1_0000_0000_0000
}

/// The small hexadecimal digit for `d`.
pub open spec fn hex_digit(d: int) -> char {
    if d < 10 {
        ((48 + d) as u8) as char
    } else {
        ((87 + d) as u8) as char
    }
}

/// `v` in `width` small hexadecimal digits, the most significant first; the
/// digits beyond `width` are left out.
pub open spec fn hex(v: int, width: nat) -> Seq<char>
    decreases width,
{
    if width == 0 {
        Seq::empty()
    } else {
        hex(v / 16, (width - 1) as nat).push(hex_digit(v % 16))
    }
}

/// Whether `c` is a digit or an ASCII letter.
pub open spec fn is_base62(c: char) -> bool {
    ('0' <= c <= '9') || ('A' <= c <= 'Z') || ('a' <= c <= 'z')
}

/// The character that stands for `i` among the digits, the capital letters
/// and the small letters, in this order.
pub open spec fn base62_char(i: int) -> char {
    if i < 10 {
        ((48 + i) as u8) as char
    } else if i < 36 {
        ((55 + i) as u8) as char
    } else {
        ((61 + i) as u8) as char
    }
}

/// Whether `s` can be the random end of an identifier.
pub open spec fn is_suffix(s: Seq<char>) -> bool {
    s.len() == SUFFIX_LENGTH && forall|i: int| 0 <= i < s.len() ==> is_base62(#[trigger] s[i])
}

/// The value that the twelve hexadecimal digits of an identifier hold: the
/// low 48 bits of `timestamp * 4096 + counter`, or, for a descending
/// identifier, of its bitwise complement.
pub open spec fn time_field(timestamp: int, counter: int, descending: bool) -> int {
    let low = (timestamp * 4096 + counter) % time_field_limit();
    if descending {
        time_field_limit() - 1 - low
    } else {
        low
    }
}

/// The text of an identifier.
pub open spec fn id_text(
    prefix: Prefix,
    descending: bool,
    timestamp: int,
    counter: int,
    suffix: Seq<char>,
) -> Seq<char> {
    prefix.text() + seq!['_'] + hex(time_field(timestamp, counter, descending), 12) + suffix
}

/// What the generator remembers between two identifiers.
pub struct GeneratorState {
    /// The timestamp of the identifier made last.
    pub last_timestamp: int,
    /// How many identifiers have been made at that timestamp.
    pub counter: int,
}

impl GeneratorState {
    /// The state after an identifier has been made at `timestamp`: the
    /// counter starts again at one where the timestamp has changed, and goes
    /// up by one, within 32 bits, where it has not.
    pub open spec fn after(self, timestamp: int) -> GeneratorState {
        if timestamp != self.last_timestamp {
            GeneratorState { last_timestamp: timestamp, counter: 1 }
        } else {
            GeneratorState {
                last_timestamp: timestamp,
                counter: (self.counter + 1) % 0x1_0000_0000,
            }
        }
    }
}

/// The one place that holds the timestamp and counter from which
/// identifiers are made.
pub struct IdGenerator {
    last_timestamp: u64,
    counter: u32,
}

impl View for IdGenerator {
    type V = GeneratorState;

    closed spec fn view(&self) -> GeneratorState {
        GeneratorState { last_timestamp: self.last_timestamp as int, counter: self.counter as int }
    }
}

impl IdGenerator {
    /// A generator that has made no identifier yet.
    pub fn new() -> (g: IdGenerator)
        ensures
            g@ == (GeneratorState { last_timestamp: 0, counter: 0 }),
    {
        IdGenerator { last_timestamp: 0, counter: 0 }
    }

    /// Takes the next counter value for `timestamp`.
    fn advance(&mut self, timestamp: u64) -> (counter: u32)
        ensures
            final(self)@ == old(self)@.after(timestamp as int),
            counter == final(self)@.counter,
    {
        if timestamp != self.last_timestamp {
            self.last_timestamp = timestamp;
            self.counter = 1;
        } else {
            self.counter = self.counter.wrapping_add(1);
        }
        self.counter
    }
}

/// `rand::Rng::gen_range` on the generator that `rand::thread_rng` gives,
/// for the range from zero up to, not including, `bound`: the value lies in
/// that range.
#[verifier::external_body]
fn random_below(bound: usize) -> (i: usize)
    requires
        bound > 0,
    ensures
        i < bound,
{
    rand::Rng::gen_range(&mut rand::thread_rng(), 0..bound)
}

/// `SystemTime::now`, measured from `UNIX_EPOCH` by `duration_since` and
/// read in milliseconds by `Duration::as_millis`; nothing where the clock
/// stands before the epoch. The result is whatever the clock says.
#[verifier::external_body]
fn clock_millis() -> Option<u64> {
    SystemTime::now().duration_since(UNIX_EPOCH).ok().map(|d| d.as_millis() as u64)
}

fn base62(i: usize) -> (c: char)
    requires
        i < 62,
    ensures
        c == base62_char(i as int),
        is_base62(c),
{
    let n: u8 = i as u8;
    if n < 10 {
        (48 + n) as char
    } else if n < 36 {
        (55 + n) as char
    } else {
        (61 + n) as char
    }
}

/// `length` characters, each drawn at random from the digits and the ASCII
/// letters.
fn random_base62(length: usize) -> (r: Vec<char>)
    ensures
        r.len() == length,
        forall|i: int| 0 <= i < r.len() ==> is_base62(#[trigger] r@[i]),
{
    let mut r: Vec<char> = Vec::new();
    let mut k: usize = 0;
    while k < length
        invariant
            k <= length,
            r.len() == k,
            forall|i: int| 0 <= i < r.len() ==> is_base62(#[trigger] r@[i]),
        decreases length - k,
    {
        r.push(base62(random_below(62)));
        k += 1;
    }
    r
}

/// The timestamp that a reading of the clock stands for: the reading
/// itself, or zero where the clock gave none because it stands before the
/// epoch.
pub open spec fn timestamp_of(reading: Option<u64>) -> u64 {
    match reading {
        Some(t) => t,
        None => 0,
    }
}

/// The timestamp that the reading `reading` of the clock stands for.
pub fn timestamp_from(reading: Option<u64>) -> (t: u64)
    ensures
        t == timestamp_of(reading),
{
    match reading {
        Some(t) => t,
        None => 0,
    }
}

/// The current time in milliseconds since the Unix epoch; zero where the
/// clock stands before the epoch. The clock decides what comes back.
fn current_timestamp_ms() -> u64 {
    timestamp_from(clock_millis())
}

fn hex_char(d: u64) -> (c: char)
    requires
        d < 16,
    ensures
        c == hex_digit(d as int),
{
    let n: u8 = d as u8;
    if n < 10 {
        (48 + n) as char
    } else {
        (87 + n) as char
    }
}

/// Appends `v` in `width` hexadecimal digits to `out`.
fn push_hex(out: &mut Vec<char>, v: u64, width: usize)
    ensures
        final(out)@ == old(out)@ + hex(v as int, width as nat),
    decreases width,
{
    if width > 0 {
        push_hex(out, v / 16, width - 1);
        out.push(hex_char(v % 16));
        assert(final(out)@ =~= old(out)@ + hex(v as int, width as nat));
    }
}

/// The low 48 bits of `timestamp * 4096 + counter`, complemented for a
/// descending identifier.
fn time_value(timestamp: u64, counter: u32, descending: bool) -> (v: u64)
    ensures
        v == time_field(timestamp as int, counter as int, descending),
        v < time_field_limit(),
{
    let mut now: u128 = (timestamp as u128) * 0x1000 + (counter as u128);
    let ghost plain = now;
    if descending {
        now = !now;
    }
    let low: u128 = now & 0xffff_ffff_ffff;
    assert(low < 0x1_0000_0000_0000u128 && (descending ==> low + plain % 0x1_0000_0000_0000u128
        == 0xffff_ffff_ffffu128) && (!descending ==> low == plain % 0x1_0000_0000_0000u128))
        by (bit_vector)
        requires
            low == now & 0xffff_ffff_ffffu128,
            descending ==> now == !plain,
            !descending ==> now == plain,
    ;
    low as u64
}

/// Whether `r` is an identifier that `generator` can have made at
/// `timestamp`, which left it as `next`.
pub open spec fn minted(
    generator: GeneratorState,
    next: GeneratorState,
    prefix: Prefix,
    descending: bool,
    timestamp: int,
    suffix: Seq<char>,
    r: Seq<char>,
) -> bool {
    &&& next == generator.after(timestamp)
    &&& r == id_text(prefix, descending, timestamp, next.counter, suffix)
}

/// Makes the identifier for `timestamp` that ends in `suffix`.
pub fn create_from(
    generator: &mut IdGenerator,
    prefix: Prefix,
    descending: bool,
    timestamp: u64,
    suffix: &Vec<char>,
) -> (r: String)
    ensures
        minted(
            old(generator)@,
            final(generator)@,
            prefix,
            descending,
            timestamp as int,
            suffix@,
            r@,
        ),
{
    let counter = generator.advance(timestamp);
    let mut text = to_chars(prefix.as_str());
    text.push('_');
    push_hex(&mut text, time_value(timestamp, counter, descending), 12);
    append(&mut text, suffix);
    assert(text@ =~= id_text(prefix, descending, timestamp as int, counter as int, suffix@));
    from_chars(&text)
}

/// Makes a new identifier: at `timestamp` where one is given, else at the
/// current time, and with a random end.
pub fn create(
    generator: &mut IdGenerator,
    prefix: Prefix,
    descending: bool,
    timestamp: Option<u64>,
) -> (r: String)
    ensures
        exists|at: u64, suffix: Seq<char>|
            is_suffix(suffix) && (timestamp matches Some(t) ==> at == t) && minted(
                old(generator)@,
                final(generator)@,
                prefix,
                descending,
                at as int,
                suffix,
                r@,
            ),
{
    let at: u64 = match timestamp {
        Some(t) => t,
        None => current_timestamp_ms(),
    };
    let suffix = random_base62(SUFFIX_LENGTH);
    let r = create_from(generator, prefix, descending, at, &suffix);
    assert(is_suffix(suffix@) && minted(
        old(generator)@,
        generator@,
        prefix,
        descending,
        at as int,
        suffix@,
        r@,
    ));
    r
}

/// Whether `id` begins with the letters of `prefix`, as every identifier of
/// that kind does.
pub fn accepts(prefix: Prefix, id: &str) -> (b: bool)
    ensures
        b == starts_with(id@, prefix.text()),
{
    let text = to_chars(id);
    let expected = to_chars(prefix.as_str());
    has_prefix(&text, &expected)
}

/// What `ascending` and `descending` return: the identifier that was given,
/// with the generator left as it was, or a new one.
pub open spec fn supplied(
    generator: GeneratorState,
    next: GeneratorState,
    prefix: Prefix,
    descending: bool,
    given: Option<&str>,
    r: Seq<char>,
) -> bool {
    match given {
        Some(id) => r == id@ && next == generator,
        None => exists|at: u64, suffix: Seq<char>|
            is_suffix(suffix) && minted(generator, next, prefix, descending, at as int, suffix, r),
    }
}

/// An identifier that sorts after those made before it: `given` itself
/// where one is given, else a new one.
pub fn ascending(generator: &mut IdGenerator, prefix: Prefix, given: Option<&str>) -> (r: String)
    requires
        given matches Some(id) ==> starts_with(id@, prefix.text()),
    ensures
        supplied(old(generator)@, final(generator)@, prefix, false, given, r@),
{
    match given {
        Some(id) => id.to_owned(),
        None => create(generator, prefix, false, None),
    }
}

/// An identifier that sorts before those made before it: `given` itself
/// where one is given, else a new one.
pub fn descending(generator: &mut IdGenerator, prefix: Prefix, given: Option<&str>) -> (r: String)
    requires
        given matches Some(id) ==> starts_with(id@, prefix.text()),
    ensures
        supplied(old(generator)@, final(generator)@, prefix, true, given, r@),
{
    match given {
        Some(id) => id.to_owned(),
        None => create(generator, prefix, true, None),
    }
}

} // verus!
