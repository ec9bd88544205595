use underpass::nominatim::{
    push_joined_ids, read_reply, NominatimError, NominatimOuput, NominatimReply, ReplyField,
    ReplyId,
};
use underpass::search::GeocodeaArea;

fn first(osm_id: ReplyId, osm_type: ReplyField<String>, display_name: ReplyField<String>) -> NominatimReply {
    NominatimReply::First {
        osm_id,
        osm_type,
        display_name,
    }
}

fn found(text: &str) -> ReplyField<String> {
    ReplyField::Found(text.to_string())
}

fn failure(message: &str) -> Result<NominatimOuput, NominatimError> {
    Err(NominatimError::Nominatim(message.to_string()))
}

#[test]
fn relation_is_queried_by_its_shifted_identifier() {
    let reply = first(ReplyId::Found(6679920), found("relation"), found("Hokkaido, Japan"));
    assert!(reply.fits());
    assert_eq!(
        read_reply(reply, "Hokkaido"),
        Ok(NominatimOuput {
            ids: vec![3606679920],
            area: GeocodeaArea {
                id: 6679920,
                ty: "relation".to_string(),
                name: "Hokkaido, Japan".to_string(),
                original: "Hokkaido".to_string(),
            },
        })
    );
}

#[test]
fn way_is_queried_by_both_identifiers() {
    let reply = first(ReplyId::Found(5), found("way"), found("A way"));
    let out = read_reply(reply, "a way").unwrap();
    assert_eq!(out.ids, vec![2400000005, 5]);
    assert_eq!(out.area.id, 5);
}

#[test]
fn node_is_queried_by_its_own_identifier() {
    let reply = first(ReplyId::Found(5), found("node"), found("A node"));
    assert_eq!(read_reply(reply, "a node").unwrap().ids, vec![5]);
}

#[test]
fn reply_that_is_no_array_is_refused() {
    assert_eq!(
        read_reply(NominatimReply::NotArray, "x"),
        failure("response was not an array")
    );
}

#[test]
fn empty_reply_names_the_search() {
    assert_eq!(
        read_reply(NominatimReply::NoResult, "Atlantis"),
        failure("no results found for Atlantis")
    );
}

#[test]
fn fields_are_read_in_order() {
    assert_eq!(
        read_reply(first(ReplyId::Missing, ReplyField::Missing, ReplyField::Missing), "x"),
        failure("nominatim response did not contain osm_id")
    );
    assert_eq!(
        read_reply(first(ReplyId::NotNumber, ReplyField::Missing, ReplyField::Missing), "x"),
        failure("osm_id was not a number")
    );
    assert_eq!(
        read_reply(first(ReplyId::NotUnsigned, ReplyField::Missing, ReplyField::Missing), "x"),
        failure("osm_id was not a u64")
    );
    assert_eq!(
        read_reply(first(ReplyId::Found(1), ReplyField::Missing, ReplyField::Mistyped), "x"),
        failure("nominatim response did not contain osm_type")
    );
    assert_eq!(
        read_reply(first(ReplyId::Found(1), ReplyField::Mistyped, ReplyField::Missing), "x"),
        failure("osm_type was not a string")
    );
    assert_eq!(
        read_reply(first(ReplyId::Found(1), found("node"), ReplyField::Missing), "x"),
        failure("nominatim response did not contain display_name")
    );
    assert_eq!(
        read_reply(first(ReplyId::Found(1), found("node"), ReplyField::Mistyped), "x"),
        failure("display_name was not a string")
    );
}

#[test]
fn identifiers_that_would_not_fit_are_told_apart() {
    assert!(!first(ReplyId::Found(u64::MAX), found("way"), found("n")).fits());
    assert!(!first(ReplyId::Found(u64::MAX - 3_599_999_999), found("relation"), found("n")).fits());
    assert!(first(ReplyId::Found(u64::MAX - 3_600_000_000), found("relation"), found("n")).fits());
    assert!(first(ReplyId::Found(u64::MAX), found("node"), found("n")).fits());
    assert!(first(ReplyId::Found(u64::MAX), found("way"), ReplyField::Missing).fits());
    assert!(NominatimReply::NoResult.fits());
}

#[test]
fn errors_describe_themselves() {
    assert_eq!(
        NominatimError::Nominatim("no results found for x".to_string()).message(),
        "Nominatim: no results found for x"
    );
    assert_eq!(
        NominatimError::Network("timed out".to_string()).message(),
        "network error"
    );
}

#[test]
fn identifiers_are_joined_by_commas() {
    let mut out = "ids:".to_string();
    push_joined_ids(&mut out, &vec![2400000005, 5, 0]);
    assert_eq!(out, "ids:2400000005,5,0");
    let mut none = String::new();
    push_joined_ids(&mut none, &vec![]);
    assert_eq!(none, "");
}
