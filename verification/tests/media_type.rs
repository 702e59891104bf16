use dim_catalog::{DatabaseError, MediaType};

#[test]
fn tokens_are_lowercase_names() {
    assert_eq!(MediaType::Movie.as_str(), "movie");
    assert_eq!(MediaType::Tv.as_str(), "tv");
    assert_eq!(MediaType::Episode.as_str(), "episode");
}

#[test]
fn encode_gives_the_token() {
    assert_eq!(MediaType::Movie.encode(), "movie");
    assert_eq!(MediaType::Tv.encode(), "tv");
    assert_eq!(MediaType::Episode.encode(), "episode");
}

#[test]
fn display_string_is_the_token() {
    assert_eq!(MediaType::Movie.to_string(), "movie");
    assert_eq!(MediaType::Tv.to_string(), "tv");
    assert_eq!(MediaType::Episode.to_string(), "episode");
}

#[test]
fn decode_reads_each_token() {
    assert_eq!(MediaType::decode("movie"), Ok(MediaType::Movie));
    assert_eq!(MediaType::decode("tv"), Ok(MediaType::Tv));
    assert_eq!(MediaType::decode("episode"), Ok(MediaType::Episode));
}

#[test]
fn encode_then_decode_is_the_identity() {
    for media_type in [MediaType::Movie, MediaType::Tv, MediaType::Episode] {
        assert_eq!(MediaType::decode(&media_type.encode()), Ok(media_type));
        assert_eq!(MediaType::decode(media_type.as_str()), Ok(media_type));
    }
}

#[test]
fn decode_refuses_every_other_token() {
    for token in [
        "", "Movie", "MOVIE", "movies", "movi", " movie", "movie ", "tv\n", "TV", "t", "episodes",
        "Episode", "music", "mov\u{ed}e", "\u{1F3AC}",
    ] {
        assert_eq!(MediaType::decode(token), Err(DatabaseError::DecodeError));
    }
}

#[test]
fn default_is_movie() {
    assert_eq!(MediaType::default(), MediaType::Movie);
}

#[test]
fn media_types_are_ordered_by_declaration() {
    assert!(MediaType::Movie < MediaType::Tv);
    assert!(MediaType::Tv < MediaType::Episode);
    let mut kinds = vec![MediaType::Episode, MediaType::Movie, MediaType::Tv];
    kinds.sort();
    assert_eq!(kinds, vec![MediaType::Movie, MediaType::Tv, MediaType::Episode]);
}

#[test]
fn media_types_serve_as_keys() {
    let mut counts: std::collections::HashMap<MediaType, u32> = std::collections::HashMap::new();
    *counts.entry(MediaType::Tv).or_insert(0) += 1;
    *counts.entry(MediaType::Tv).or_insert(0) += 1;
    *counts.entry(MediaType::Movie).or_insert(0) += 1;
    assert_eq!(counts.get(&MediaType::Tv), Some(&2));
    assert_eq!(counts.get(&MediaType::Movie), Some(&1));
    assert_eq!(counts.get(&MediaType::Episode), None);
}
