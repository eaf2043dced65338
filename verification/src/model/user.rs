//! Users and their discriminators.

use vstd::prelude::*;

verus! {

/// The reason a discriminator could not be read from text.
#[derive(Debug, Clone, Copy, PartialEq, Eq)]
pub enum DiscriminatorError {
    /// The text is not exactly six hexadecimal digits.
    Malformed,
}

/// Whether `c` is an ASCII hexadecimal digit, in either case.
pub open spec fn is_hex_digit(c: char) -> bool {
    (48 <= c as int <= 57) || (65 <= c as int <= 70) || (97 <= c as int <= 102)
}

/// The value of the hexadecimal digit `c`.
pub open spec fn hex_val(c: char) -> int {
    if 48 <= c as int <= 57 {
        c as int - 48
    } else if 65 <= c as int <= 70 {
        c as int - 55
    } else {
        c as int - 87
    }
}

/// Whether `s` is a well-formed discriminator text: exactly six hexadecimal
/// digits.
pub open spec fn discriminator_text_valid(s: Seq<char>) -> bool {
    s.len() == 6 && forall|i: int| 0 <= i < 6 ==> is_hex_digit(#[trigger] s[i])
}

/// The byte rendered by the `i`-th pair of hexadecimal digits of `s`.
pub open spec fn discriminator_byte(s: Seq<char>, i: int) -> int {
    hex_val(s[2 * i]) * 16 + hex_val(s[2 * i + 1])
}

/// This is used to differentiate several users with a same username.
///
/// It is represented with an hexadecimal format: three bytes, rendered as six
/// hexadecimal digits.
#[derive(Debug, Clone, Copy, PartialEq, Eq)]
pub struct Discriminator(pub [u8; 3]);

impl Discriminator {
    /// Creates a new discriminator.
    pub fn new(discriminator: [u8; 3]) -> (r: Self)
        ensures
            r.0 == discriminator,
    {
        Self(discriminator)
    }

    /// Generates a new random discriminator.
    pub fn generate() -> Self {
        Self(random_bytes())
    }

    /// Reads a discriminator from text: exactly six hexadecimal digits, two
    /// for each byte, upper or lower case.
    pub fn parse(s: &str) -> (r: Result<Self, DiscriminatorError>)
        ensures
            discriminator_text_valid(s@) ==> (r matches Ok(d) && forall|i: int|
                0 <= i < 3 ==> #[trigger] d.0[i] as int == discriminator_byte(s@, i)),
            !discriminator_text_valid(s@) ==> r == Err::<Self, _>(DiscriminatorError::Malformed),
    {
        if s.unicode_len() != 6 {
            return Err(DiscriminatorError::Malformed);
        }
        let b0 = match hex_pair(s, 0) {
            Some(b) => b,
            None => return Err(DiscriminatorError::Malformed),
        };
        let b1 = match hex_pair(s, 2) {
            Some(b) => b,
            None => return Err(DiscriminatorError::Malformed),
        };
        let b2 = match hex_pair(s, 4) {
            Some(b) => b,
            None => return Err(DiscriminatorError::Malformed),
        };
        Ok(Self([b0, b1, b2]))
    }
}

/// The value of one hexadecimal digit, or `None` where `c` is no such digit.
fn hex_digit(c: char) -> (r: Option<u8>)
    ensures
        is_hex_digit(c) ==> (r matches Some(v) && v as int == hex_val(c)),
        !is_hex_digit(c) ==> r is None,
{
    let u = c as u32;
    if 48 <= u && u <= 57 {
        Some((u - 48) as u8)
    } else if 65 <= u && u <= 70 {
        Some((u - 55) as u8)
    } else if 97 <= u && u <= 102 {
        Some((u - 87) as u8)
    } else {
        None
    }
}

/// The byte written by the two hexadecimal digits of `s` at `i` and `i + 1`.
fn hex_pair(s: &str, i: usize) -> (r: Option<u8>)
    requires
        i + 1 < s@.len(),
        i % 2 == 0,
    ensures
        (is_hex_digit(s@[i as int]) && is_hex_digit(s@[i + 1])) ==> (r matches Some(v) && v
            as int == discriminator_byte(s@, i as int / 2)),
        !(is_hex_digit(s@[i as int]) && is_hex_digit(s@[i + 1])) ==> r is None,
{
    let hi = match hex_digit(s.get_char(i)) {
        Some(v) => v,
        None => return None,
    };
    let lo = match hex_digit(s.get_char(i + 1)) {
        Some(v) => v,
        None => return None,
    };
    Some(hi * 16 + lo)
}

/// Relies on `rand::random`: three uniformly random bytes. The value is
/// random, so nothing is promised of it.
#[verifier::external_body]
fn random_bytes() -> [u8; 3] {
    rand::random()
}

impl core::str::FromStr for Discriminator {
    type Err = DiscriminatorError;

    fn from_str(s: &str) -> Result<Self, Self::Err> {
        Self::parse(s)
    }
}

/// Main structure for users.
///
/// A user corresponds to an account owned by a physical or moral person: it
/// is not a bot.
#[derive(Debug)]
pub struct User {
    /// Unique identifier
    pub uuid: u128,

    /// Username
    pub username: String,

    /// Discriminator
    pub discriminator: Discriminator,

    /// Is this user currently online?
    pub online: bool,
}

impl Clone for User {
    fn clone(&self) -> (r: Self)
        ensures
            r == *self,
    {
        Self {
            uuid: self.uuid,
            username: self.username.clone(),
            discriminator: self.discriminator,
            online: self.online,
        }
    }
}

impl User {
    /// Creates a new user: a fresh unique id, a random discriminator, and the
    /// online flag down.
    pub fn new(username: &str) -> (r: Self)
        ensures
            r.username@ == username@,
            r.online == false,
    {
        Self {
            uuid: crate::model::fresh_uuid(),
            username: username.to_owned(),
            discriminator: Discriminator::generate(),
            online: false,
        }
    }
}

} // verus!
