use underpass::elevation::{lookup_or_0, ElevationError};
use underpass::graph::errors::GraphError;
use underpass::nominatim::NominatimError;
use underpass::search::{ErrorFormat, ErrorReport, SearchError};
use underpass::graph::nodes::overpass::{INTERPRETER_URL, STATUS_OK};
use underpass::nominatim::{search_url, USER_AGENT};
use underpass::taginfo::{
    all_keys_url, all_values_url, keeps_value, more_pages, taginfo_path, wiki_url,
};
use underpass::text::{
    chars_of, is_white_space, push_decimal, split_text, strip_prefixes, text_begins_with, text_is,
    to_decimal, trim_text,
};

#[test]
fn numbers_are_written_in_decimal() {
    assert_eq!(to_decimal(0), "0");
    assert_eq!(to_decimal(7), "7");
    assert_eq!(to_decimal(10), "10");
    assert_eq!(to_decimal(3606679920), "3606679920");
    assert_eq!(to_decimal(u64::MAX), "18446744073709551615");
    let mut text = "n=".to_string();
    push_decimal(&mut text, 1234567890);
    assert_eq!(text, "n=1234567890");
}

#[test]
fn texts_are_compared_by_their_characters() {
    assert!(text_is("bbox", "bbox"));
    assert!(!text_is("bbox", "bbo"));
    assert!(!text_is("", "x"));
    assert!(text_is("", ""));
}

#[test]
fn taginfo_lies_below_the_data_folder() {
    assert_eq!(taginfo_path("/srv/data"), "/srv/data/taginfo/taginfo.json");
    assert_eq!(taginfo_path("/srv/data/"), "/srv/data/taginfo/taginfo.json");
    assert_eq!(taginfo_path("data"), "data/taginfo/taginfo.json");
    assert_eq!(taginfo_path(""), "taginfo/taginfo.json");
    assert_eq!(taginfo_path("/"), "/taginfo/taginfo.json");
}

#[test]
fn taginfo_path_agrees_with_path_joining() {
    for base in ["/srv/data", "/srv/data/", "data", "", "/", "a/b"] {
        let mut expected = std::path::PathBuf::from(base);
        expected.push("taginfo");
        expected.push("taginfo.json");
        assert_eq!(std::path::PathBuf::from(taginfo_path(base)), expected);
    }
}

#[test]
fn pages_of_keys_have_their_address() {
    assert_eq!(
        all_keys_url(1, 999),
        "https://taginfo.openstreetmap.org/api/4/keys/all?page=1&rp=999&sortname=count_all&sortorder=desc&filter=in_wiki"
    );
}

#[test]
fn pages_of_values_have_their_address() {
    assert_eq!(
        all_values_url("highway", 2, 50),
        "https://taginfo.openstreetmap.org/api/4/key/values?key=highway&page=2&rp=50&sortname=count&sortorder=desc"
    );
}

#[test]
fn elevation_errors_describe_themselves() {
    assert_eq!(ElevationError::CoordNotFound.message(), "coordinate not found");
    assert_eq!(ElevationError::Gdal("x".to_string()).message(), "gdal error");
    assert_eq!(ElevationError::Network("x".to_string()).message(), "io error");
}

#[test]
fn failed_lookup_counts_as_zero() {
    assert_eq!(lookup_or_0(Ok(812)), 812);
    assert_eq!(lookup_or_0(Ok(-3)), -3);
    assert_eq!(lookup_or_0(Err(ElevationError::CoordNotFound)), 0);
}

#[test]
fn graph_errors_describe_themselves() {
    assert_eq!(
        GraphError::ConnectionNodeMissing.message(),
        "Connection refers to a non-existing node"
    );
    assert_eq!(GraphError::Cycle.message(), "The provided graph contains a cycle");
    assert_eq!(GraphError::MapMissing.message(), "Graph is missing a Map node");
    assert_eq!(
        GraphError::InputMissing {
            node_id: "n".to_string()
        }
        .message(),
        "Node has no input"
    );
    assert_eq!(
        GraphError::OqlSyntax {
            node_id: "n".to_string(),
            error: "e".to_string(),
            query: "q".to_string(),
        }
        .message(),
        "Oql syntax error"
    );
    assert_eq!(
        GraphError::WrongInputType {
            got: "query".to_string(),
            expected: "geojson".to_string(),
        }
        .message(),
        "Node has wrong input type query, expected geojson"
    );
    assert_eq!(
        GraphError::OverpassJsonError.message(),
        "Error parsing Overpass json"
    );
    assert_eq!(GraphError::Network("down".to_string()).message(), "network error");
    assert_eq!(
        GraphError::Nominatim(NominatimError::Nominatim("no results found for x".to_string()))
            .message(),
        "nominatim error Nominatim: no results found for x"
    );
    assert_eq!(
        GraphError::NotImplemented {
            node_id: "n".to_string()
        }
        .message(),
        "Node is not implemented"
    );
    let e = GraphError::RoadLength {
        message: "m".to_string(),
        node_id: "n".to_string(),
    };
    assert_eq!(e.duplicate(), e);
    assert_eq!(e.node_id(), None);
}

#[test]
fn refused_query_is_reported_as_such() {
    let error = SearchError::Graph(GraphError::OqlSyntax {
        node_id: "n1".to_string(),
        error: "<p>parse error</p>".to_string(),
        query: "nod;".to_string(),
    });
    assert_eq!(error.node_id(), Some(&"n1".to_string()));
    assert_eq!(
        error.report(),
        ErrorReport {
            error: "Oql syntax error".to_string(),
            format: ErrorFormat::Xml,
            query: Some("nod;".to_string()),
            message: Some("<p>parse error</p>".to_string()),
            node_id: Some("n1".to_string()),
        }
    );
}

#[test]
fn other_errors_are_reported_by_their_text() {
    let missing = SearchError::Graph(GraphError::InputMissing {
        node_id: "n2".to_string(),
    });
    assert_eq!(
        missing.report(),
        ErrorReport {
            error: "Node has no input".to_string(),
            format: ErrorFormat::Text,
            query: None,
            message: None,
            node_id: Some("n2".to_string()),
        }
    );
    let network = SearchError::Network("connection reset".to_string());
    assert_eq!(network.message(), "network error");
    assert_eq!(network.node_id(), None);
    assert_eq!(
        network.report(),
        ErrorReport {
            error: "network error".to_string(),
            format: ErrorFormat::Text,
            query: None,
            message: None,
            node_id: None,
        }
    );
}

#[test]
fn keys_have_their_wiki_page() {
    assert_eq!(wiki_url("highway"), "https://wiki.openstreetmap.org/wiki/Highways");
    assert_eq!(wiki_url("amenity"), "https://wiki.openstreetmap.org/wiki/Key:amenity");
    assert_eq!(wiki_url(""), "https://wiki.openstreetmap.org/wiki/Key:");
}

#[test]
fn services_have_their_address() {
    assert_eq!(
        search_url("Hokkaido, Japan", "en"),
        "https://nominatim.openstreetmap.org/search?format=jsonv2&accept-language=en&q=Hokkaido, Japan"
    );
    assert!(USER_AGENT.starts_with("Underpass"));
    assert_eq!(INTERPRETER_URL, "https://overpass-api.de/api/interpreter");
    assert_eq!(STATUS_OK, 200);
}

#[test]
fn white_space_is_what_the_standard_library_takes_for_it() {
    for c in '\0'..=char::MAX {
        assert_eq!(is_white_space(c), c.is_whitespace(), "{:?}", c);
    }
}

const SAMPLES: [&str; 14] = [
    "",
    " ",
    "a",
    " a ",
    "\t\n Hokkaido, Japan \r\n",
    "Hokkaido, Japan",
    "\u{3000}\u{2003}x y\u{a0}\u{85}",
    "\u{200b}x\u{200b}",
    "a;b;;c;",
    ";",
    "@@",
    "Aomori, Japan@es",
    "aroundSelf.aroundSelf.x",
    "äö@ü; ß",
];

#[test]
fn trimming_agrees_with_the_standard_library() {
    for text in SAMPLES {
        assert_eq!(trim_text(text), text.trim(), "{:?}", text);
    }
    assert_eq!(trim_text("\t\n Hokkaido, Japan \r\n"), "Hokkaido, Japan");
    assert_eq!(trim_text("Hokkaido, Japan"), "Hokkaido, Japan");
}

#[test]
fn splitting_agrees_with_the_standard_library() {
    for text in SAMPLES {
        for sep in [';', '@', ' ', 'ö'] {
            let expected: Vec<String> = text.split(sep).map(|p| p.to_string()).collect();
            assert_eq!(split_text(text, sep), expected, "{:?} at {:?}", text, sep);
        }
    }
    assert_eq!(split_text("a;b;;c;", ';'), vec!["a", "b", "", "c", ""]);
    assert_eq!(split_text("", ';'), vec![""]);
}

#[test]
fn prefixes_agree_with_the_standard_library() {
    for text in SAMPLES {
        for prefix in ["", "a", "aroundSelf.", " ", "ä", "@", "Hokkaido, Japan!"] {
            assert_eq!(
                text_begins_with(text, prefix),
                text.starts_with(prefix),
                "{:?} begins with {:?}",
                text,
                prefix
            );
            if !prefix.is_empty() {
                assert_eq!(
                    strip_prefixes(text, prefix),
                    text.trim_start_matches(prefix),
                    "{:?} without {:?}",
                    text,
                    prefix
                );
            }
        }
    }
    assert_eq!(strip_prefixes("aroundSelf.aroundSelf.x", "aroundSelf."), "x");
    assert_eq!(strip_prefixes("abc", ""), "abc");
    assert!(text_begins_with("aroundSelf.x", "aroundSelf."));
    assert!(!text_begins_with("around", "aroundSelf."));
}

#[test]
fn characters_are_handed_out_in_order() {
    assert_eq!(chars_of("aß\u{3000}z"), vec!['a', 'ß', '\u{3000}', 'z']);
    assert!(chars_of("").is_empty());
}

#[test]
fn texts_of_other_scripts_are_compared_by_their_characters() {
    assert!(text_is("北海道", "北海道"));
    assert!(!text_is("北海道", "北海"));
    assert!(!text_is("é", "e\u{301}"));
}

#[test]
fn page_that_is_not_full_is_the_last() {
    assert!(more_pages(999, 999));
    assert!(more_pages(1000, 999));
    assert!(!more_pages(998, 999));
    assert!(!more_pages(0, 999));
}

#[test]
fn values_without_a_description_are_left_out() {
    assert!(keeps_value(&Some("a road".to_string())));
    assert!(!keeps_value(&Some(String::new())));
    assert!(!keeps_value(&None));
}
