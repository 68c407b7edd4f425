//! The hashing technologies that an exact topic can name.

use vstd::prelude::*;
use crate::error::{ParseError, ParseFault};
use crate::text::same;

verus! {

/// A hashing technology, as named by the second part of an exact topic.
#[derive(Debug, Clone, Copy, PartialEq, Eq, Structural)]
pub enum HashTech {
    /// `tree`: Tiger Tree Hash.
    TTH,
    /// `sha1`: Secure Hash Algorithm 1.
    SHA1,
    /// `bitprint`: a SHA-1 hash and a Tiger Tree Hash together.
    BitPrint,
    /// `ed2k`: eDonkey2000.
    ED2K,
    /// `aich`: Advanced Intelligent Corruption Handler.
    AICH,
    /// `kzhash`: Kazaa.
    Kazaa,
    /// `btih`: BitTorrent info hash.
    BTIH,
    /// `md5`: Message Digest 5.
    MD5,
}

/// The technology that the token `name` stands for, if any. Tokens are
/// compared letter for letter: upper case is not folded.
pub open spec fn hash_tech_of(name: Seq<char>) -> Option<HashTech> {
    if name == "tree"@ {
        Some(HashTech::TTH)
    } else if name == "sha1"@ {
        Some(HashTech::SHA1)
    } else if name == "bitprint"@ {
        Some(HashTech::BitPrint)
    } else if name == "ed2k"@ {
        Some(HashTech::ED2K)
    } else if name == "aich"@ {
        Some(HashTech::AICH)
    } else if name == "kzhash"@ {
        Some(HashTech::Kazaa)
    } else if name == "btih"@ {
        Some(HashTech::BTIH)
    } else if name == "md5"@ {
        Some(HashTech::MD5)
    } else {
        None
    }
}

/// The name under which a technology is shown.
pub open spec fn hash_tech_text(tech: HashTech) -> Seq<char> {
    match tech {
        HashTech::TTH => "TTH"@,
        HashTech::SHA1 => "SHA1"@,
        HashTech::BitPrint => "BitPrint"@,
        HashTech::ED2K => "ED2K"@,
        HashTech::AICH => "AICH"@,
        HashTech::Kazaa => "Kazaa"@,
        HashTech::BTIH => "BTIH"@,
        HashTech::MD5 => "MD5"@,
    }
}

impl HashTech {
    /// The name under which the technology is shown.
    pub fn to_text(&self) -> (r: String)
        ensures
            r@ == hash_tech_text(*self),
    {
        match self {
            HashTech::TTH => "TTH".to_owned(),
            HashTech::SHA1 => "SHA1".to_owned(),
            HashTech::BitPrint => "BitPrint".to_owned(),
            HashTech::ED2K => "ED2K".to_owned(),
            HashTech::AICH => "AICH".to_owned(),
            HashTech::Kazaa => "Kazaa".to_owned(),
            HashTech::BTIH => "BTIH".to_owned(),
            HashTech::MD5 => "MD5".to_owned(),
        }
    }

    /// Resolves a token to its technology, or fails with
    /// `UnknownHashTechnology` holding the token.
    pub fn from_string(name: &str) -> (r: Result<HashTech, ParseError>)
        ensures
            match r {
                Ok(tech) => hash_tech_of(name@) == Some(tech),
                Err(e) => hash_tech_of(name@) is None && e@ == ParseFault::UnknownHashTechnology(
                    name@,
                ),
            },
    {
        if same(name, "tree") {
            Ok(HashTech::TTH)
        } else if same(name, "sha1") {
            Ok(HashTech::SHA1)
        } else if same(name, "bitprint") {
            Ok(HashTech::BitPrint)
        } else if same(name, "ed2k") {
            Ok(HashTech::ED2K)
        } else if same(name, "aich") {
            Ok(HashTech::AICH)
        } else if same(name, "kzhash") {
            Ok(HashTech::Kazaa)
        } else if same(name, "btih") {
            Ok(HashTech::BTIH)
        } else if same(name, "md5") {
            Ok(HashTech::MD5)
        } else {
            Err(ParseError::UnknownHashTechnology(name.to_owned()))
        }
    }
}

/// Each of the eight tokens stands for its own technology: no token is
/// taken for another.
pub proof fn lemma_hash_tech_tokens_resolve()
    ensures
        hash_tech_of("tree"@) == Some(HashTech::TTH),
        hash_tech_of("sha1"@) == Some(HashTech::SHA1),
        hash_tech_of("bitprint"@) == Some(HashTech::BitPrint),
        hash_tech_of("ed2k"@) == Some(HashTech::ED2K),
        hash_tech_of("aich"@) == Some(HashTech::AICH),
        hash_tech_of("kzhash"@) == Some(HashTech::Kazaa),
        hash_tech_of("btih"@) == Some(HashTech::BTIH),
        hash_tech_of("md5"@) == Some(HashTech::MD5),
{
    reveal_strlit("tree");
    reveal_strlit("sha1");
    reveal_strlit("bitprint");
    reveal_strlit("ed2k");
    reveal_strlit("aich");
    reveal_strlit("kzhash");
    reveal_strlit("btih");
    reveal_strlit("md5");
    assert("tree"@[0] == 't' && "sha1"@[0] == 's' && "ed2k"@[0] == 'e');
    assert("aich"@[0] == 'a' && "btih"@[0] == 'b');
    assert("bitprint"@.len() == 8 && "kzhash"@.len() == 6 && "md5"@.len() == 3);
    assert("tree"@.len() == 4 && "btih"@.len() == 4);
}

} // verus!
