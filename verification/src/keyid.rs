use vstd::prelude::*;

use crate::error::Error;

verus! {

/// A character of the uppercase hexadecimal alphabet `0-9A-F`.
pub open spec fn is_hex_char(c: char) -> bool {
    ('0' <= c && c <= '9') || ('A' <= c && c <= 'F')
}

/// A byte that spells an uppercase hexadecimal character in ASCII.
pub open spec fn is_hex_byte(b: u8) -> bool {
    (48 <= b && b <= 57) || (65 <= b && b <= 70)
}

/// The characters spelled by a sequence of ASCII bytes.
pub open spec fn ascii_chars_of(bytes: Seq<u8>) -> Seq<char> {
    bytes.map_values(|b: u8| b as char)
}

/// A well-formed fingerprint text: exactly 40 uppercase hexadecimal characters.
pub open spec fn is_valid_key_text(s: Seq<char>) -> bool {
    s.len() == 40 && forall|i| 0 <= i < s.len() ==> is_hex_char(#[trigger] s[i])
}

/// The same well-formedness, read off the ASCII bytes of the text.
pub open spec fn is_valid_key_bytes(s: Seq<u8>) -> bool {
    s.len() == 40 && forall|i| 0 <= i < s.len() ==> is_hex_byte(#[trigger] s[i])
}

/// A validated key fingerprint: exactly 40 characters drawn from `0-9A-F`.
///
/// Construction fails for any other length or character set; no
/// normalization is applied, so the caller must supply the canonical form.
/// The view of a `KeyId` is the character sequence of its text.
#[derive(Debug)]
pub struct KeyId {
    text: String,
}

impl View for KeyId {
    type V = Seq<char>;

    closed spec fn view(&self) -> Seq<char> {
        self.text@
    }
}

impl DeepView for KeyId {
    type V = Seq<char>;

    open spec fn deep_view(&self) -> Seq<char> {
        self.view()
    }
}

impl Clone for KeyId {
    fn clone(&self) -> (r: Self)
        ensures
            r == *self,
    {
        proof {
            use_type_invariant(self);
        }
        KeyId { text: self.text.clone() }
    }
}

impl PartialEq for KeyId {
    fn eq(&self, other: &Self) -> (r: bool) {
        self.text == other.text
    }
}

impl vstd::std_specs::cmp::PartialEqSpecImpl for KeyId {
    open spec fn obeys_eq_spec() -> bool {
        true
    }

    open spec fn eq_spec(&self, other: &Self) -> bool {
        self@ == other@
    }
}

/// Relies on String::from_utf8: ASCII bytes decode to the string whose
/// characters carry the same code points, one character per byte.
#[verifier::external_body]
fn ascii_to_string(bytes: &Vec<u8>) -> (r: String)
    requires
        forall|i| 0 <= i < bytes@.len() ==> bytes@[i] < 128,
    ensures
        r@ == ascii_chars_of(bytes@),
{
    match String::from_utf8(bytes.clone()) {
        Ok(s) => s,
        Err(_) => String::new(),
    }
}

impl KeyId {
    /// Every `KeyId` holds a well-formed fingerprint text.
    #[verifier::type_invariant]
    pub closed spec fn wf(&self) -> bool {
        is_valid_key_text(self.text@)
    }

    /// Validates `text` as a fingerprint: succeeds exactly on 40-character
    /// uppercase-hexadecimal strings, and preserves the text unchanged.
    pub fn parse(text: &str) -> (r: Result<KeyId, Error>)
        ensures
            r is Ok <==> is_valid_key_text(text@),
            r matches Ok(k) ==> k@ == text@,
            r matches Err(e) ==> e == Error::InvalidIdentifier,
    {
        broadcast use vstd::string::is_ascii_spec_bytes;

        if !text.is_ascii() {
            proof {
                let s = text@;
                assert(!vstd::utf8::is_ascii_chars(s));
                let i = choose|i| 0 <= i < s.len() && !('\0' <= #[trigger] s[i] <= '\u{7f}');
                assert(!is_hex_char(s[i]));
            }
            return Err(Error::InvalidIdentifier);
        }
        let bytes: &[u8] = text.as_bytes();
        if bytes.len() != 40 {
            return Err(Error::InvalidIdentifier);
        }
        let mut i: usize = 0;
        while i < 40
            invariant
                0 <= i <= 40,
                vstd::string::is_ascii(text),
                bytes@ =~= Seq::new(text@.len(), |j: int| text@[j] as u8),
                bytes@.len() == 40,
                text@.len() == 40,
                forall|j| 0 <= j < i ==> is_hex_char(#[trigger] text@[j]),
            decreases 40 - i,
        {
            let b: u8 = bytes[i];
            if !((48 <= b && b <= 57) || (65 <= b && b <= 70)) {
                assert(!is_hex_char(text@[i as int]));
                return Err(Error::InvalidIdentifier);
            }
            assert(is_hex_char(text@[i as int]));
            i += 1;
        }
        Ok(KeyId { text: text.to_owned() })
    }

    /// Validates a fingerprint taken as raw ASCII bytes, as it stands in a
    /// field of the external tool's record stream.
    pub fn parse_bytes(bytes: &Vec<u8>) -> (r: Result<KeyId, Error>)
        ensures
            r is Ok <==> is_valid_key_bytes(bytes@),
            r matches Ok(k) ==> k@ == ascii_chars_of(bytes@),
            r matches Err(e) ==> e == Error::InvalidIdentifier,
    {
        if bytes.len() != 40 {
            return Err(Error::InvalidIdentifier);
        }
        let mut i: usize = 0;
        while i < 40
            invariant
                0 <= i <= 40,
                bytes@.len() == 40,
                forall|j| 0 <= j < i ==> is_hex_byte(#[trigger] bytes@[j]),
            decreases 40 - i,
        {
            let b: u8 = bytes[i];
            if !((48 <= b && b <= 57) || (65 <= b && b <= 70)) {
                return Err(Error::InvalidIdentifier);
            }
            i += 1;
        }
        let text = ascii_to_string(bytes);
        assert(is_valid_key_text(text@)) by {
            assert(forall|j| 0 <= j < text@.len() ==> is_hex_char(#[trigger] text@[j]));
        }
        Ok(KeyId { text })
    }

    /// The fingerprint as text, identical to what was validated.
    pub fn as_str(&self) -> (r: &str)
        ensures
            r@ == self@,
    {
        self.text.as_str()
    }
}

} // verus!
