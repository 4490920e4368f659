//! Building a `Resource` from a chat message: the embeds' links and texts are
//! joined into one normalised description, and the description is
//! fingerprinted.

use vstd::prelude::*;
use vstd::string::*;
use std::hash::{Hash, Hasher};
use crate::text::{decimal, decimal_text, normalize, normalized};

verus! {

/// The category tag of every resource built from a message.
pub const LINK_TYPE: i32 = 10;

/// What `DefaultHasher` (created by `DefaultHasher::new`) yields after
/// hashing a `str` with these characters.
pub uninterp spec fn default_hash_of(s: Seq<char>) -> u64;

/// Relies on `DefaultHasher::new`, `Hash for String` and `Hasher::finish`:
/// every hasher that `new` makes is the same, so the hash of a string
/// depends on its characters alone.
#[verifier::external_body]
fn default_hash(t: &String) -> (r: u64)
    ensures
        r == default_hash_of(t@),
{
    let mut s = std::collections::hash_map::DefaultHasher::new();
    t.hash(&mut s);
    s.finish()
}

/// One attachment of a message. A field is `None` where the embed lacks it.
pub struct Embed {
    pub title: Option<String>,
    pub description: Option<String>,
    pub url: Option<String>,
}

/// The parts of a chat message that a resource is built from.
pub struct Message {
    pub author_id: u64,
    pub channel_id: u64,
    pub embeds: Vec<Embed>,
}

/// Why a message could not be turned into a resource.
#[derive(Debug, PartialEq, Eq, Structural)]
pub enum BuildError {
    /// The embed at this index lacks its title, description or url.
    MissingEmbedField(usize),
}

/// The unit of persisted content.
#[derive(Debug, Default)]
pub struct Resource {
    pub user_id: String,
    pub channel_id: String,
    pub url: String,
    pub description: String,
    pub shash: String,
    pub type_id: i32,
}

/// The embed carries a title, a description and a url.
pub open spec fn embed_complete(e: Embed) -> bool {
    e.title is Some && e.description is Some && e.url is Some
}

/// The text that one complete embed adds to the description.
pub open spec fn fragment(e: Embed) -> Seq<char> {
    "|url: "@ + normalized(e.url->0@) + " + "@ + e.title->0@ + " + "@ + e.description->0@
}

/// The fragments of all embeds, in order.
pub open spec fn fragments(embeds: Seq<Embed>) -> Seq<char>
    decreases embeds.len(),
{
    if embeds.len() == 0 {
        Seq::empty()
    } else {
        fragments(embeds.drop_last()) + fragment(embeds.last())
    }
}

/// The description of a resource built from these embeds.
pub open spec fn built_description(embeds: Seq<Embed>) -> Seq<char> {
    normalized(fragments(embeds))
}

/// The url of a resource built from these embeds: the last one's, normalised.
pub open spec fn built_url(embeds: Seq<Embed>) -> Seq<char> {
    if embeds.len() == 0 {
        Seq::empty()
    } else {
        normalized(embeds.last().url->0@)
    }
}

/// The fingerprint of a description: its hash in decimal.
pub open spec fn shash_of(description: Seq<char>) -> Seq<char> {
    decimal(default_hash_of(description) as nat)
}

/// The resource built from a message whose embeds are all complete.
pub open spec fn built_from(r: Resource, m: Message) -> bool {
    &&& r.user_id@ == decimal(m.author_id as nat)
    &&& r.channel_id@ == decimal(m.channel_id as nat)
    &&& r.url@ == built_url(m.embeds@)
    &&& r.description@ == built_description(m.embeds@)
    &&& r.shash@ == shash_of(r.description@)
    &&& r.type_id == LINK_TYPE
}

/// The description text of a message is the text of its first embeds
/// followed by the text of the rest: embeds contribute in encounter order.
pub proof fn lemma_fragments_in_order(first: Seq<Embed>, rest: Seq<Embed>)
    ensures
        fragments(first + rest) == fragments(first) + fragments(rest),
    decreases rest.len(),
{
    if rest.len() == 0 {
        assert(first + rest =~= first);
        assert(fragments(first) + fragments(rest) =~= fragments(first));
    } else {
        lemma_fragments_in_order(first, rest.drop_last());
        assert((first + rest).drop_last() =~= first + rest.drop_last());
        assert((first + rest).last() == rest.last());
        assert(fragments(first + rest) =~= fragments(first) + fragments(rest));
    }
}

/// Whatever embeds come before it, only the last embed's url survives, in
/// normal form.
pub proof fn lemma_last_url_survives(earlier: Seq<Embed>, last: Embed)
    ensures
        built_url(earlier.push(last)) == normalized(last.url->0@),
{
}

/// Two resources built from messages with the same description carry the
/// same fingerprint.
pub proof fn lemma_shash_deterministic(r1: Resource, m1: Message, r2: Resource, m2: Message)
    requires
        built_from(r1, m1),
        built_from(r2, m2),
        r1.description@ == r2.description@,
    ensures
        r1.shash@ == r2.shash@,
{
}

impl Resource {
    /// A resource may be stored only with a url and a description.
    pub open spec fn insertable(&self) -> bool {
        self.url@.len() > 0 && self.description@.len() > 0
    }

    /// Whether the store accepts this resource.
    pub fn is_insertable(&self) -> (r: bool)
        ensures
            r == self.insertable(),
    {
        !self.url.as_str().is_empty() && !self.description.as_str().is_empty()
    }

    /// The hash of a text, as `DefaultHasher` computes it.
    pub fn _calculate_hash(t: &String) -> (r: u64)
        ensures
            r == default_hash_of(t@),
    {
        default_hash(t)
    }

    /// Builds the resource for a message. Every embed must carry a title, a
    /// description and a url; otherwise the first embed that does not is
    /// reported.
    pub fn new(message: &Message) -> (r: Result<Resource, BuildError>)
        ensures
            r is Ok <==> forall|i: int|
                0 <= i < message.embeds@.len() ==> embed_complete(#[trigger] message.embeds@[i]),
            r is Ok ==> built_from(r->Ok_0, *message),
            r is Ok && message.embeds@.len() == 0 ==> r->Ok_0.url@.len() == 0
                && r->Ok_0.description@.len() == 0,
            r matches Err(BuildError::MissingEmbedField(i)) ==> {
                &&& i < message.embeds@.len()
                &&& !embed_complete(message.embeds@[i as int])
                &&& forall|j: int| 0 <= j < i ==> embed_complete(#[trigger] message.embeds@[j])
            },
    {
        let embeds = &message.embeds;
        let mut url = String::new();
        let mut description = String::new();
        let mut i: usize = 0;
        while i < embeds.len()
            invariant
                0 <= i <= embeds@.len(),
                embeds == message.embeds,
                forall|j: int| 0 <= j < i ==> embed_complete(#[trigger] embeds@[j]),
                description@ == fragments(embeds@.subrange(0, i as int)),
                url@ == built_url(embeds@.subrange(0, i as int)),
            decreases embeds.len() - i,
        {
            let embed = &embeds[i];
            match (&embed.title, &embed.description, &embed.url) {
                (Some(title), Some(text), Some(link)) => {
                    url = normalize(link.as_str());
                    description.append("|url: ");
                    description.append(url.as_str());
                    description.append(" + ");
                    description.append(title.as_str());
                    description.append(" + ");
                    description.append(text.as_str());
                    assert(embeds@.subrange(0, i as int + 1).drop_last() =~= embeds@.subrange(
                        0,
                        i as int,
                    ));
                },
                _ => {
                    return Err(BuildError::MissingEmbedField(i));
                },
            }
            i = i + 1;
        }
        assert(embeds@.subrange(0, i as int) =~= embeds@);
        let description = normalize(description.as_str());
        let shash = decimal_text(Resource::_calculate_hash(&description));
        Ok(Resource {
            user_id: decimal_text(message.author_id),
            channel_id: decimal_text(message.channel_id),
            url,
            description,
            shash,
            type_id: LINK_TYPE,
        })
    }
}

} // verus!
