//! Worker names: short lowercase identifiers that label the node holding a task.

use vstd::prelude::*;
use vstd::string::StringSliceAdditionalSpecFns;

verus! {

/// Longest accepted worker name, in characters.
pub const MAX_NAME_LEN: usize = 32;

/// Why a string is not a worker name.
#[derive(Clone, Copy, Debug, PartialEq, Eq, Structural)]
pub enum NameError {
    Empty,
    TooLong,
    InvalidCharacter,
}

/// `-`, a decimal digit or a lowercase ASCII letter.
pub open spec fn is_name_char(c: char) -> bool {
    c == '-' || ('0' <= c && c <= '9') || ('a' <= c && c <= 'z')
}

/// One to 32 characters, each of them a name character.
pub open spec fn is_valid_name(s: Seq<char>) -> bool {
    &&& 1 <= s.len() <= MAX_NAME_LEN
    &&& forall|i: int| 0 <= i < s.len() ==> is_name_char(#[trigger] s[i])
}

/// The verdict on a candidate name: emptiness is reported first, then an
/// encoded length above 32 bytes, then a character outside the alphabet.
pub open spec fn name_verdict(s: Seq<char>, encoded_len: nat) -> Result<(), NameError> {
    if s.len() == 0 {
        Err(NameError::Empty)
    } else if encoded_len > MAX_NAME_LEN {
        Err(NameError::TooLong)
    } else if exists|i: int| 0 <= i < s.len() && !is_name_char(#[trigger] s[i]) {
        Err(NameError::InvalidCharacter)
    } else {
        Ok(())
    }
}

/// Judges a candidate name: see [`name_verdict`].
pub fn validate_worker_name(s: &str) -> (r: Result<(), NameError>)
    ensures
        r == name_verdict(s@, s.spec_bytes().len()),
        r is Ok <==> is_valid_name(s@),
{
    broadcast use vstd::string::is_ascii_spec_bytes;

    let bytes = s.as_bytes();
    if s.is_empty() {
        return Err(NameError::Empty);
    }
    if bytes.len() > MAX_NAME_LEN {
        proof {
            if is_valid_name(s@) {
                assert forall|i: int| 0 <= i < s@.len() implies '\0' <= #[trigger] s@[i]
                    <= '\u{7f}' by {
                    assert(is_name_char(s@[i]));
                }
                assert(vstd::string::is_ascii(s));
            }
        }
        return Err(NameError::TooLong);
    }
    if !s.is_ascii() {
        proof {
            let i = choose|i: int| 0 <= i < s@.len() && !('\0' <= #[trigger] s@[i] <= '\u{7f}');
            assert(!is_name_char(s@[i]));
        }
        return Err(NameError::InvalidCharacter);
    }
    let mut i: usize = 0;
    while i < bytes.len()
        invariant
            0 <= i <= bytes.len(),
            bytes@.len() == s@.len(),
            0 < s@.len() <= MAX_NAME_LEN,
            vstd::string::is_ascii(s),
            bytes@ == s.spec_bytes(),
            forall|j: int| 0 <= j < i ==> is_name_char(#[trigger] s@[j]),
        decreases bytes.len() - i,
    {
        let b: u8 = bytes[i];
        proof {
            let c = s@[i as int];
            assert('\0' <= c <= '\u{7f}');
            assert(b == c as u8);
        }
        let ok = b == 45u8 || (48u8 <= b && b <= 57u8) || (97u8 <= b && b <= 122u8);
        if !ok {
            proof {
                assert(!is_name_char(s@[i as int]));
            }
            return Err(NameError::InvalidCharacter);
        }
        assert(is_name_char(s@[i as int]));
        i += 1;
    }
    Ok(())
}

/// A validated worker name.
///
/// The field is private, so every value was built by [`WorkerName::from_str`]
/// or [`WorkerName::default`] and is a valid name.
#[derive(Debug, PartialEq, Eq, PartialOrd, Ord)]
pub struct WorkerName(String);

impl View for WorkerName {
    type V = Seq<char>;

    closed spec fn view(&self) -> Seq<char> {
        self.0@
    }
}

impl Clone for WorkerName {
    fn clone(&self) -> (copy: Self)
        ensures
            copy == *self,
    {
        proof {
            use_type_invariant(self);
        }
        WorkerName(self.0.clone())
    }
}

impl WorkerName {
    #[verifier::type_invariant]
    spec fn well_formed(self) -> bool {
        is_valid_name(self.0@)
    }

    /// The name given to a node that was started without one: `default`.
    pub fn default() -> (name: Self)
        ensures
            name@ == "default"@,
    {
        proof {
            reveal_strlit("default");
        }
        let text = "default";
        assert(is_valid_name(text@)) by {
            assert forall|i: int| 0 <= i < text@.len() implies is_name_char(#[trigger] text@[i]) by {
                if i == 0 {
                } else if i == 1 {
                } else if i == 2 {
                } else if i == 3 {
                } else if i == 4 {
                } else if i == 5 {
                } else {
                }
            }
        }
        WorkerName(text.to_owned())
    }

    /// Accepts exactly the valid names; a rejected string comes back with the
    /// first rule it breaks.
    pub fn from_str(s: &str) -> (r: Result<Self, NameError>)
        ensures
            r is Ok <==> is_valid_name(s@),
            match r {
                Ok(name) => name@ == s@,
                Err(e) => Err::<(), NameError>(e) == name_verdict(s@, s.spec_bytes().len()),
            },
    {
        match validate_worker_name(s) {
            Ok(()) => Ok(WorkerName(s.to_owned())),
            Err(e) => Err(e),
        }
    }

    #[must_use]
    pub fn inner(&self) -> (s: &String)
        ensures
            s@ == self@,
            is_valid_name(s@),
    {
        proof {
            use_type_invariant(self);
        }
        &self.0
    }

    #[must_use]
    pub fn into_inner(self) -> (s: String)
        ensures
            s@ == self@,
            is_valid_name(s@),
    {
        proof {
            use_type_invariant(&self);
        }
        self.0
    }
}

impl NameError {
    /// The sentence shown to a user whose name was rejected.
    pub fn message(&self) -> (text: &'static str)
        ensures
            text@ == match *self {
                NameError::Empty => "name is empty"@,
                NameError::TooLong => "name is longer than 32 characters"@,
                NameError::InvalidCharacter => "name may only contain characters -, 0-9, a-z"@,
            },
    {
        match self {
            NameError::Empty => "name is empty",
            NameError::TooLong => "name is longer than 32 characters",
            NameError::InvalidCharacter => "name may only contain characters -, 0-9, a-z",
        }
    }
}

} // verus!
