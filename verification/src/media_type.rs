//! The kinds of content a library can hold, and their wire tokens.
use crate::error::DatabaseError;
use vstd::prelude::*;

verus! {

/// What a library, or a single medium, contains.
///
/// At every boundary (storage column, wire format, display) a value travels
/// as its lowercase token.
#[derive(Copy, Clone, Debug, PartialEq, Eq, PartialOrd, Ord, Hash, Structural)]
pub enum MediaType {
    Movie,
    Tv,
    Episode,
}

/// Whether two strings hold the same characters.
fn same_text(left: &str, right: &str) -> (same: bool)
    ensures
        same == (left@ == right@),
{
    let len: usize = left.unicode_len();
    if right.unicode_len() != len {
        return false;
    }
    let mut at: usize = 0;
    while at < len
        invariant
            len == left@.len(),
            len == right@.len(),
            at <= len,
            left@.subrange(0, at as int) == right@.subrange(0, at as int),
        decreases len - at,
    {
        if left.get_char(at) != right.get_char(at) {
            return false;
        }
        assert(left@.subrange(0, at + 1) == left@.subrange(0, at as int).push(left@[at as int]));
        assert(right@.subrange(0, at + 1) == right@.subrange(0, at as int).push(
            right@[at as int],
        ));
        at += 1;
    }
    assert(left@ == left@.subrange(0, len as int));
    assert(right@ == right@.subrange(0, len as int));
    true
}

impl MediaType {
    /// The wire token of a media type.
    pub open spec fn token(self) -> Seq<char> {
        match self {
            MediaType::Movie => "movie"@,
            MediaType::Tv => "tv"@,
            MediaType::Episode => "episode"@,
        }
    }

    /// The media type that a token stands for, if it stands for one.
    pub open spec fn parse(token: Seq<char>) -> Option<MediaType> {
        if token == MediaType::Movie.token() {
            Some(MediaType::Movie)
        } else if token == MediaType::Tv.token() {
            Some(MediaType::Tv)
        } else if token == MediaType::Episode.token() {
            Some(MediaType::Episode)
        } else {
            None
        }
    }

    /// The wire token, borrowed.
    pub fn as_str(&self) -> (token: &'static str)
        ensures
            token@ == self.token(),
    {
        match self {
            MediaType::Movie => "movie",
            MediaType::Tv => "tv",
            MediaType::Episode => "episode",
        }
    }

    /// The wire token, as it is written to a storage column or a payload.
    pub fn encode(&self) -> (token: String)
        ensures
            token@ == self.token(),
    {
        self.as_str().to_owned()
    }

    /// The display string of a media type: its wire token.
    pub fn to_string(&self) -> (text: String)
        ensures
            text@ == self.token(),
    {
        self.encode()
    }

    /// Reads a wire token. Anything but one of the three tokens, letter for
    /// letter, is a decode error.
    pub fn decode(token: &str) -> (decoded: Result<MediaType, DatabaseError>)
        ensures
            decoded == match MediaType::parse(token@) {
                Some(media_type) => Ok::<MediaType, DatabaseError>(media_type),
                None => Err(DatabaseError::DecodeError),
            },
    {
        if same_text(token, "movie") {
            Ok(MediaType::Movie)
        } else if same_text(token, "tv") {
            Ok(MediaType::Tv)
        } else if same_text(token, "episode") {
            Ok(MediaType::Episode)
        } else {
            Err(DatabaseError::DecodeError)
        }
    }
}

impl Default for MediaType {
    /// The media type of a library for which none was given.
    fn default() -> (media_type: MediaType)
        ensures
            media_type == MediaType::Movie,
    {
        MediaType::Movie
    }
}

/// No two media types share a token.
pub proof fn tokens_are_distinct(left: MediaType, right: MediaType)
    requires
        left.token() == right.token(),
    ensures
        left == right,
{
    reveal_strlit("movie");
    reveal_strlit("tv");
    reveal_strlit("episode");
    assert("movie"@.len() == 5 && "tv"@.len() == 2 && "episode"@.len() == 7);
}

/// Encoding a media type and decoding the token gives the media type back.
pub proof fn decode_inverts_encode(media_type: MediaType)
    ensures
        MediaType::parse(media_type.token()) == Some(media_type),
{
    if media_type.token() == MediaType::Movie.token() {
        tokens_are_distinct(MediaType::Movie, media_type);
    } else if media_type.token() == MediaType::Tv.token() {
        tokens_are_distinct(MediaType::Tv, media_type);
    } else if media_type.token() == MediaType::Episode.token() {
        tokens_are_distinct(MediaType::Episode, media_type);
    }
}

/// A token decodes to a media type exactly when it is that type's token, so
/// every other token is refused.
pub proof fn decode_accepts_only_tokens(token: Seq<char>, media_type: MediaType)
    ensures
        MediaType::parse(token) == Some(media_type) <==> token == media_type.token(),
        MediaType::parse(token) is None <==> (forall|any: MediaType| token != any.token()),
{
    decode_inverts_encode(media_type);
    if MediaType::parse(token) is None {
        assert forall|any: MediaType| token != any.token() by {
            if token == any.token() {
                decode_inverts_encode(any);
            }
        }
    } else {
        assert(token == MediaType::parse(token)->Some_0.token());
    }
}

} // verus!
