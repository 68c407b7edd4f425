//! Exact topics: a content hash together with the technology that made it,
//! written `urn:<tech>:<hash>`.

use vstd::prelude::*;
use crate::error::{outcome, ParseError, ParseFault};
use crate::hash_tech::{hash_tech_of, hash_tech_text, HashTech};
use crate::text::{
    lemma_split_concat, lemma_split_pieces_plain, lemma_split_plain, same, split, split_text,
};

verus! {

/// A content hash and the technology that produced it.
#[derive(Debug, PartialEq, Eq)]
pub struct ExactTopic {
    urn: HashTech,
    hash: String,
}

/// An `ExactTopic` with its hash as a sequence of characters.
pub ghost struct ExactTopicView {
    pub urn: HashTech,
    pub hash: Seq<char>,
}

impl View for ExactTopic {
    type V = ExactTopicView;

    closed spec fn view(&self) -> ExactTopicView {
        ExactTopicView { urn: self.urn, hash: self.hash@ }
    }
}

impl Clone for ExactTopic {
    /// A topic with the same technology and hash.
    fn clone(&self) -> (r: ExactTopic)
        ensures
            r@ == self@,
    {
        ExactTopic { urn: self.urn, hash: self.hash.clone() }
    }
}

/// The reason given when a topic does not have three parts.
pub open spec fn reason_part_count() -> Seq<char> {
    "expected 3 colon-separated parts"@
}

/// The reason given when the first part of a topic is not `urn`.
pub open spec fn reason_no_urn() -> Seq<char> {
    "must start with urn"@
}

/// What the text `xt` means as an exact topic. The text is cut at each `:`;
/// there must be three parts, the first must be `urn`, the second a known
/// technology token, and the third is the hash, taken as it stands. The
/// checks are made in that order and the first that fails decides the error.
pub open spec fn exact_topic_of(xt: Seq<char>) -> Result<ExactTopicView, ParseFault> {
    let parts = split(xt, ':');
    if parts.len() != 3 {
        Err(ParseFault::MalformedExactTopic(reason_part_count()))
    } else if parts[0] != "urn"@ {
        Err(ParseFault::MalformedExactTopic(reason_no_urn()))
    } else {
        match hash_tech_of(parts[1]) {
            None => Err(ParseFault::UnknownHashTechnology(parts[1])),
            Some(urn) => Ok(ExactTopicView { urn, hash: parts[2] }),
        }
    }
}

/// The text `urn:<tech>:<hash>`.
pub open spec fn urn_text(tech: Seq<char>, hash: Seq<char>) -> Seq<char> {
    "urn"@ + seq![':'] + tech + seq![':'] + hash
}

impl ExactTopic {
    /// Parses a topic written `urn:<tech>:<hash>`.
    pub fn from_string(xt: &str) -> (r: Result<ExactTopic, ParseError>)
        ensures
            outcome(r) == exact_topic_of(xt@),
    {
        let parts = split_text(xt, ':');
        if parts.len() != 3 {
            return Err(
                ParseError::MalformedExactTopic("expected 3 colon-separated parts".to_owned()),
            );
        }
        if !same(parts[0].as_str(), "urn") {
            return Err(ParseError::MalformedExactTopic("must start with urn".to_owned()));
        }
        match HashTech::from_string(parts[1].as_str()) {
            Err(e) => Err(e),
            Ok(urn) => Ok(ExactTopic { urn, hash: parts[2].clone() }),
        }
    }

    /// The topic as one line of text: `urn: <technology> - hash: <hash>`.
    pub fn to_text(&self) -> (r: String)
        ensures
            r@ == "urn: "@ + hash_tech_text(self@.urn) + " - hash: "@ + self@.hash,
    {
        let mut line = "urn: ".to_owned();
        line.append(self.urn.to_text().as_str());
        line.append(" - hash: ");
        line.append(self.hash.as_str());
        line
    }

    /// The technology that produced the hash.
    pub fn get_urn(&self) -> (r: &HashTech)
        ensures
            *r == self@.urn,
    {
        &self.urn
    }

    /// The hash, as the topic gave it.
    pub fn get_hash(&self) -> (r: &str)
        ensures
            r@ == self@.hash,
    {
        self.hash.as_str()
    }
}

/// The three letters `urn` hold no colon.
proof fn lemma_urn_plain()
    ensures
        !"urn"@.contains(':'),
{
    reveal_strlit("urn");
}

/// The text `urn:<tech>:<hash>`, where neither `tech` nor `hash` holds a
/// colon, is cut into exactly `urn`, `tech` and `hash`.
pub proof fn lemma_urn_text_parts(tech: Seq<char>, hash: Seq<char>)
    requires
        !tech.contains(':'),
        !hash.contains(':'),
    ensures
        split(urn_text(tech, hash), ':') == seq!["urn"@, tech, hash],
{
    lemma_urn_plain();
    lemma_split_plain("urn"@, ':');
    lemma_split_plain(tech, ':');
    lemma_split_plain(hash, ':');
    lemma_split_concat("urn"@, tech, ':');
    lemma_split_concat("urn"@ + seq![':'] + tech, hash, ':');
}

/// A known technology token holds no colon.
pub proof fn lemma_known_token_plain(tech: Seq<char>)
    requires
        hash_tech_of(tech) is Some,
    ensures
        !tech.contains(':'),
{
    reveal_strlit("tree");
    reveal_strlit("sha1");
    reveal_strlit("bitprint");
    reveal_strlit("ed2k");
    reveal_strlit("aich");
    reveal_strlit("kzhash");
    reveal_strlit("btih");
    reveal_strlit("md5");
}

/// Every text `urn:<tech>:<hash>` whose technology token is known, and whose
/// hash holds no colon, parses to that technology and that very hash.
pub proof fn lemma_valid_topic_round_trips(tech: Seq<char>, hash: Seq<char>)
    requires
        hash_tech_of(tech) is Some,
        !hash.contains(':'),
    ensures
        exact_topic_of(urn_text(tech, hash)) == Ok::<ExactTopicView, ParseFault>(
            ExactTopicView { urn: hash_tech_of(tech)->0, hash },
        ),
{
    lemma_known_token_plain(tech);
    lemma_urn_text_parts(tech, hash);
}

/// Every text that the colons do not cut into exactly three parts is
/// rejected as malformed, for its number of parts.
pub proof fn lemma_wrong_part_count_rejected(xt: Seq<char>)
    requires
        split(xt, ':').len() != 3,
    ensures
        exact_topic_of(xt) == Err::<ExactTopicView, ParseFault>(
            ParseFault::MalformedExactTopic(reason_part_count()),
        ),
{
}

/// Every text of three parts whose first part is not `urn` is rejected as
/// malformed, for not starting with `urn`.
pub proof fn lemma_missing_urn_rejected(xt: Seq<char>)
    requires
        split(xt, ':').len() == 3,
        split(xt, ':')[0] != "urn"@,
    ensures
        exact_topic_of(xt) == Err::<ExactTopicView, ParseFault>(
            ParseFault::MalformedExactTopic(reason_no_urn()),
        ),
{
}

/// Every text `urn:<tech>:<hash>` whose technology token is not known is
/// rejected as naming an unknown technology, with the token.
pub proof fn lemma_unknown_technology_rejected(tech: Seq<char>, hash: Seq<char>)
    requires
        hash_tech_of(tech) is None,
        !tech.contains(':'),
        !hash.contains(':'),
    ensures
        exact_topic_of(urn_text(tech, hash)) == Err::<ExactTopicView, ParseFault>(
            ParseFault::UnknownHashTechnology(tech),
        ),
{
    lemma_urn_text_parts(tech, hash);
}

/// The hash of a topic that was read holds no colon.
pub proof fn lemma_read_hash_plain(xt: Seq<char>)
    ensures
        exact_topic_of(xt) matches Ok(topic) ==> !topic.hash.contains(':'),
{
    lemma_split_pieces_plain(xt, ':');
}

} // verus!
