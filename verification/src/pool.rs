use vstd::prelude::*;

verus! {

/// True of the characters `0`-`9` and `a`-`f`.
pub open spec fn is_lower_hex_digit(c: char) -> bool {
    ('0' <= c && c <= '9') || ('a' <= c && c <= 'f')
}

/// True of the positions of a hyphenated UUID that hold a `-`.
pub open spec fn is_hyphen_position(i: int) -> bool {
    i == 8 || i == 13 || i == 18 || i == 23
}

/// The text of a random (version 4, RFC 4122 variant) UUID in lower-case
/// hyphenated form, such as `67e55044-10b1-426f-9247-bb680e5fe0c8`.
pub open spec fn is_uuid_v4_text(s: Seq<char>) -> bool {
    &&& s.len() == 36
    &&& forall|i: int|
        0 <= i < 36 ==> (if is_hyphen_position(i) {
            s[i] == '-'
        } else {
            is_lower_hex_digit(s[i])
        })
    &&& s[14] == '4'
    &&& (s[19] == '8' || s[19] == '9' || s[19] == 'a' || s[19] == 'b')
}

/// Calls `uuid::Uuid::new_v4()` and formats the result with `to_string()`.
///
/// Trusted: `new_v4` masks random bits so that the version nibble is 4 and
/// the variant bits are `10`, and the `Display` impl of `Uuid` writes the
/// lower-case hyphenated form (32 hex digits in groups 8-4-4-4-12). So the
/// result is 36 characters with `-` at positions 8, 13, 18, 23, `4` at
/// position 14 and one of `8 9 a b` at position 19. Which UUID comes back
/// is random and is not stated; neither is that `new_v4` panics when the
/// operating system cannot supply random bytes.
#[verifier::external_body]
fn random_uuid_text() -> (s: String)
    ensures
        is_uuid_v4_text(s@),
{
    uuid::Uuid::new_v4().to_string()
}

/// A monotone counter: each read hands out the current value and moves it
/// on by `step`.
#[derive(Debug, Clone, Copy, PartialEq, Eq, Structural)]
pub struct Counter {
    pub value: i64,
    pub step: i64,
    pub initial: i64,
}

/// A pool that hands out fresh random UUIDs.
#[derive(Debug, Clone, Copy, PartialEq, Eq, Structural)]
pub struct UuidPool;

/// A named pool kept by the daemon.
#[derive(Debug, Clone, Copy, PartialEq, Eq, Structural)]
pub enum Pool {
    Counter(Counter),
    Uuid(UuidPool),
}

impl Counter {
    /// True when a read does not leave the range of `i64`.
    pub open spec fn can_read(self) -> bool {
        i64::MIN <= self.value + self.step <= i64::MAX
    }

    /// The counter after one read.
    pub open spec fn advanced(self) -> Counter
        recommends
            self.can_read(),
    {
        Counter { value: (self.value + self.step) as i64, step: self.step, initial: self.initial }
    }

    /// The counter after a reset.
    pub open spec fn rewound(self) -> Counter {
        Counter { value: self.initial, step: self.step, initial: self.initial }
    }

    /// A counter that starts at `initial` and moves by `step`.
    pub fn new(step: i64, initial: i64) -> (c: Self)
        ensures
            c == (Counter { value: initial, step, initial }),
    {
        Self { value: initial, step, initial }
    }

    /// Return current value and increment by step.
    pub fn read(&mut self) -> (current: i64)
        requires
            old(self).can_read(),
        ensures
            current == old(self).value,
            *final(self) == old(self).advanced(),
    {
        let current = self.value;
        self.value = self.value + self.step;
        current
    }

    /// Return current value without incrementing.
    pub fn seek(&self) -> (current: i64)
        ensures
            current == self.value,
    {
        self.value
    }

    /// Reset value back to initial.
    pub fn reset(&mut self)
        ensures
            *final(self) == old(self).rewound(),
    {
        self.value = self.initial;
    }
}

impl UuidPool {
    pub fn new() -> (p: Self)
        ensures
            p == UuidPool,
    {
        Self
    }

    /// Generate a new random UUID-v4.
    pub fn read(&self) -> (s: String)
        ensures
            is_uuid_v4_text(s@),
    {
        random_uuid_text()
    }
}

impl Pool {
    /// The name of the pool's kind, as requests and listings spell it.
    pub open spec fn kind_name(self) -> Seq<char> {
        match self {
            Pool::Counter(_) => "counter"@,
            Pool::Uuid(_) => "uuid"@,
        }
    }

    pub fn as_counter_mut(&mut self) -> (r: Option<&mut Counter>)
        ensures
            match r {
                Some(c) => {
                    &&& *old(self) == Pool::Counter(*c)
                    &&& *final(self) == Pool::Counter(*final(c))
                },
                None => {
                    &&& !(*old(self) is Counter)
                    &&& *final(self) == *old(self)
                },
            },
    {
        match self {
            Pool::Counter(c) => Some(c),
            _ => None,
        }
    }

    pub fn as_counter(&self) -> (r: Option<&Counter>)
        ensures
            match r {
                Some(c) => *self == Pool::Counter(*c),
                None => !(*self is Counter),
            },
    {
        match self {
            Pool::Counter(c) => Some(c),
            _ => None,
        }
    }

    pub fn as_uuid(&self) -> (r: Option<&UuidPool>)
        ensures
            match r {
                Some(u) => *self == Pool::Uuid(*u),
                None => !(*self is Uuid),
            },
    {
        match self {
            Pool::Uuid(u) => Some(u),
            _ => None,
        }
    }

    pub fn kind(&self) -> (name: &'static str)
        ensures
            name@ == self.kind_name(),
    {
        match self {
            Pool::Counter(_) => "counter",
            Pool::Uuid(_) => "uuid",
        }
    }
}

} // verus!
