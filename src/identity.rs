//! The file identity tagger: one content hash per file, taken from the raw
//! bytes of the first line that passed the discriminator check.
use vstd::prelude::*;
use vstd::string::StringSliceAdditionalSpecFns;

verus! {

/// The lowercase hexadecimal BLAKE3 digest of a byte string.
pub uninterp spec fn blake3_hex(b: Seq<u8>) -> Seq<char>;

/// Relies on blake3::hash and Hash::to_hex: the 32-byte digest of the bytes,
/// written as 64 lowercase hexadecimal digits.
#[verifier::external_body]
fn hash_hex(b: &[u8]) -> (r: String)
    ensures
        r@ == blake3_hex(b@),
        r@.len() == 64,
{
    blake3::hash(b).to_hex().to_string()
}

/// Holds the file identity once it has been derived.
pub struct FileIdentityTagger {
    id: Option<String>,
}

impl View for FileIdentityTagger {
    type V = Option<Seq<char>>;

    closed spec fn view(&self) -> Option<Seq<char>> {
        match self.id {
            Some(s) => Some(s@),
            None => None,
        }
    }
}

impl FileIdentityTagger {
    /// A tagger that has seen no matched line yet.
    pub fn new() -> (r: Self)
        ensures
            r@ is None,
    {
        FileIdentityTagger { id: None }
    }

    /// The identity, derived from `line` on the first call and reused after.
    pub fn get_or_create(&mut self, line: &str) -> (r: String)
        ensures
            old(self)@.is_none() ==> r@ == blake3_hex(line.spec_bytes()) && r@.len() == 64,
            old(self)@.is_some() ==> Some(r@) == old(self)@,
            final(self)@ == Some(r@),
    {
        match &self.id {
            Some(s) => s.clone(),
            None => {
                let h = hash_hex(line.as_bytes());
                self.id = Some(h.clone());
                h
            },
        }
    }

    /// The identity, if a matched line has been seen.
    pub fn current(&self) -> (r: Option<String>)
        ensures
            match r {
                Some(s) => self@ == Some(s@),
                None => self@.is_none(),
            },
    {
        match &self.id {
            Some(s) => Some(s.clone()),
            None => None,
        }
    }
}

} // verus!
