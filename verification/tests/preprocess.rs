use std::cell::RefCell;

use underpass::graph::errors::GraphError;
use underpass::nominatim::{Nominatim, NominatimError, NominatimOuput};
use underpass::preprocess::{
    classify, expand, geocode_requests, internal_id, preprocess_query, query_requests, IdSource,
    MacroCall, MacroKind,
};
use underpass::search::{Bbox, GeocodeaArea};

/// A geocoder that answers from a list and notes what it was asked.
struct ListedNominatim {
    answers: RefCell<Vec<Result<NominatimOuput, NominatimError>>>,
    asked: RefCell<Vec<(String, String)>>,
}

impl ListedNominatim {
    fn new(mut answers: Vec<Result<NominatimOuput, NominatimError>>) -> Self {
        answers.reverse();
        ListedNominatim {
            answers: RefCell::new(answers),
            asked: RefCell::new(vec![]),
        }
    }

    fn asked(&self) -> Vec<(String, String)> {
        self.asked.borrow().clone()
    }
}

impl Nominatim for ListedNominatim {
    fn search(&self, search: &str, lang: &str) -> Result<NominatimOuput, NominatimError> {
        self.asked
            .borrow_mut()
            .push((search.to_string(), lang.to_string()));
        self.answers
            .borrow_mut()
            .pop()
            .expect("the geocoder was asked more often than expected")
    }
}

fn found(id: u64) -> Result<NominatimOuput, NominatimError> {
    Ok(NominatimOuput {
        ids: vec![id],
        area: GeocodeaArea::default(),
    })
}

fn fixed() -> IdSource {
    IdSource::Fixed("AAAAAAAAAA".to_string())
}

#[test]
fn test_empty() {
    let query = "";
    let nominatim = ListedNominatim::new(vec![]);

    let (processed, _areas) =
        preprocess_query(query, &Bbox::default(), 60, &nominatim, &fixed()).unwrap();

    assert_eq!(
        processed,
        "[out:json][timeout:60];



out;>;out skel qt;"
    )
}

#[test]
fn test_no_macros_does_nothing() {
    let query = "node[place=city];";
    let nominatim = ListedNominatim::new(vec![]);

    let (processed, _areas) =
        preprocess_query(query, &Bbox::default(), 60, &nominatim, &fixed()).unwrap();

    assert_eq!(
        processed,
        "[out:json][timeout:60];

node[place=city];

out;>;out skel qt;"
    )
}

fn bbox_of(ne: [f32; 2], sw: [f32; 2]) -> Bbox {
    Bbox {
        sw_lat: format!("{}", sw[0]),
        sw_lng: format!("{}", sw[1]),
        ne_lat: format!("{}", ne[0]),
        ne_lng: format!("{}", ne[1]),
        center_lat: format!("{}", (sw[0] + ne[0]) / 2.0),
        center_lng: format!("{}", (sw[1] + ne[1]) / 2.0),
    }
}

#[test]
fn test_bbox_macro() {
    let query = "node[amenity=drinking_water]({{bbox}});";
    let nominatim = ListedNominatim::new(vec![]);

    let bbox = bbox_of([0.3, 1.2345], [2.1, 3.0]);

    let (processed, _areas) = preprocess_query(query, &bbox, 54, &nominatim, &fixed()).unwrap();

    assert_eq!(
        processed,
        "[out:json][timeout:54];

node[amenity=drinking_water](2.1,3,0.3,1.2345);

out;>;out skel qt;"
    )
}

#[test]
fn test_around_self_macro() {
    let query = "node[amenity=bench]->.benches;
{{aroundSelf.benches:7}}->.benchesAroundOtherBenches;";
    let nominatim = ListedNominatim::new(vec![]);

    let (processed, _areas) =
        preprocess_query(query, &Bbox::default(), 14, &nominatim, &fixed()).unwrap();

    assert_eq!(
        processed,
        "[out:json][timeout:14];

node[amenity=bench]->.benches;
foreach.benches->.internal__it_AAAAAAAAAA(nwr.benches(around.internal__it_AAAAAAAAAA:7)->.internal__nearby_AAAAAAAAAA; (.internal__nearby_AAAAAAAAAA; - .internal__it_AAAAAAAAAA;)->.internal__others_AAAAAAAAAA; (.internal__collect_AAAAAAAAAA; .internal__others_AAAAAAAAAA;)->.internal__collect_AAAAAAAAAA;); .internal__empty_AAAAAAAAAA->._; .internal__collect_AAAAAAAAAA->.benchesAroundOtherBenches;

out;>;out skel qt;"
    )
}

#[test]
fn test_geocode_area() {
    let query = "{{geocodeArea:Hokkaido, Japan}}->.japan;
node[place=city](area.japan);";
    let nominatim = ListedNominatim::new(vec![found(3606679920)]);

    let (processed, areas) =
        preprocess_query(query, &Bbox::default(), 60, &nominatim, &fixed()).unwrap();

    assert_eq!(
        processed,
        "[out:json][timeout:60];

(area(id:3606679920);)->.japan;
node[place=city](area.japan);

out;>;out skel qt;"
    );
    assert_eq!(nominatim.asked().len(), 1);
    assert_eq!(areas.len(), 1);
}

#[test]
fn test_geocode_area_multiple() {
    let query = "{{geocodeArea:Hokkaido, Japan;Aomori, Japan}}->.japan;
node[place=city](area.japan);";

    let nominatim = ListedNominatim::new(vec![found(3606679920), found(3601834655)]);

    let (processed, _areas) =
        preprocess_query(query, &Bbox::default(), 60, &nominatim, &fixed()).unwrap();

    assert_eq!(
        nominatim.asked(),
        vec![
            ("Hokkaido, Japan".to_string(), "en".to_string()),
            ("Aomori, Japan".to_string(), "en".to_string()),
        ]
    );
    assert_eq!(
        processed,
        "[out:json][timeout:60];

(area(id:3606679920);area(id:3601834655);)->.japan;
node[place=city](area.japan);

out;>;out skel qt;"
    )
}

#[test]
fn test_geocode_area_with_langs() {
    let query = "{{geocodeArea:Hokkaido, Japan@en;Aomori, Japan@es}}->.japan;
node[place=city](area.japan);";

    let nominatim = ListedNominatim::new(vec![found(3606679920), found(3601834655)]);

    let (processed, _areas) =
        preprocess_query(query, &Bbox::default(), 60, &nominatim, &fixed()).unwrap();

    assert_eq!(
        nominatim.asked(),
        vec![
            ("Hokkaido, Japan".to_string(), "en".to_string()),
            ("Aomori, Japan".to_string(), "es".to_string()),
        ]
    );
    assert_eq!(
        processed,
        "[out:json][timeout:60];

(area(id:3606679920);area(id:3601834655);)->.japan;
node[place=city](area.japan);

out;>;out skel qt;"
    )
}

#[test]
fn geocoder_failure_ends_preprocessing() {
    let query = "{{geocodeArea:a;b}}";
    let nominatim = ListedNominatim::new(vec![
        found(1),
        Err(NominatimError::Nominatim("no results found for b".to_string())),
    ]);
    let out = preprocess_query(query, &Bbox::default(), 1, &nominatim, &fixed());
    assert_eq!(
        out,
        Err(GraphError::Nominatim(NominatimError::Nominatim(
            "no results found for b".to_string()
        )))
    );
}

#[test]
fn center_macro_and_unknown_macro() {
    let bbox = bbox_of([3.0, 5.0], [1.0, 2.0]);
    let nominatim = ListedNominatim::new(vec![]);
    let (processed, _) =
        preprocess_query("a{{center}}b{{ out }}c", &bbox, 7, &nominatim, &fixed()).unwrap();
    assert_eq!(
        processed,
        "[out:json][timeout:7];\n\na2,3.5b{{ out }}c\n\nout;>;out skel qt;"
    );
}

#[test]
fn macros_without_their_body_stay_as_written() {
    let nominatim = ListedNominatim::new(vec![]);
    let (processed, areas) = preprocess_query(
        "{{geocodeArea}} {{aroundSelf.x}}",
        &Bbox::default(),
        7,
        &nominatim,
        &fixed(),
    )
    .unwrap();
    assert_eq!(
        processed,
        "[out:json][timeout:7];\n\n{{geocodeArea}} {{aroundSelf.x}}\n\nout;>;out skel qt;"
    );
    assert!(areas.is_empty());
    assert!(nominatim.asked().is_empty());
}

#[test]
fn random_suffixes_are_ten_letters_or_digits() {
    let nominatim = ListedNominatim::new(vec![]);
    let (processed, _) = preprocess_query(
        "{{aroundSelf.s:1}}",
        &Bbox::default(),
        7,
        &nominatim,
        &IdSource::Random,
    )
    .unwrap();
    let start = processed.find("internal__it_").unwrap() + "internal__it_".len();
    let suffix: String = processed[start..].chars().take(10).collect();
    assert_eq!(suffix.len(), 10);
    assert!(suffix.chars().all(|c| c.is_ascii_alphanumeric()));
    assert_eq!(processed[start + 10..].chars().next(), Some('('));
}

#[test]
fn requests_are_trimmed_and_default_to_english() {
    let calls = vec![
        MacroCall {
            whole: "{{geocodeArea: Oslo @ no ; Bergen }}".to_string(),
            name: "geocodeArea".to_string(),
            body: Some(" Oslo @ no ; Bergen ".to_string()),
        },
        MacroCall {
            whole: "{{bbox}}".to_string(),
            name: "bbox".to_string(),
            body: None,
        },
    ];
    let requests = geocode_requests(&calls);
    assert_eq!(requests.len(), 2);
    assert_eq!(requests[0].search, "Oslo");
    assert_eq!(requests[0].lang, "no");
    assert_eq!(requests[1].search, "Bergen");
    assert_eq!(requests[1].lang, "en");
    assert!(matches!(classify(&calls[1]), MacroKind::Bbox));
}

#[test]
fn internal_identifier_has_label_and_suffix() {
    assert_eq!(internal_id("it", "AAAAAAAAAA"), "internal__it_AAAAAAAAAA");
}

#[test]
fn around_self_strips_every_leading_prefix() {
    let nominatim = ListedNominatim::new(vec![]);
    let (processed, _) = preprocess_query(
        "{{aroundSelf.aroundSelf.s:1}}",
        &Bbox::default(),
        7,
        &nominatim,
        &IdSource::Fixed("B".to_string()),
    )
    .unwrap();
    assert!(processed.contains("foreach.s->.internal__it_B(nwr.s(around.internal__it_B:1)"));
}

#[test]
fn requests_of_a_query_come_in_the_order_of_its_macros() {
    let requests = query_requests("{{geocodeArea:a@x}}{{bbox}}{{ geocodeArea:b;c@y@z }}");
    let asked: Vec<(&str, &str)> = requests
        .iter()
        .map(|r| (r.search.as_str(), r.lang.as_str()))
        .collect();
    assert_eq!(asked, vec![("a", "x"), ("b", "en"), ("c", "y")]);
}

#[test]
fn each_internal_set_gets_its_own_suffix() {
    let gaps = vec!["<".to_string(), "|".to_string(), ">".to_string()];
    let calls = vec![
        MacroCall {
            whole: "{{aroundSelf.s:5}}".to_string(),
            name: "aroundSelf.s".to_string(),
            body: Some("5".to_string()),
        },
        MacroCall {
            whole: "{{geocodeArea:x}}".to_string(),
            name: "geocodeArea".to_string(),
            body: Some("x".to_string()),
        },
    ];
    let answers = vec![NominatimOuput {
        ids: vec![7, 8],
        area: GeocodeaArea {
            id: 8,
            ty: "way".to_string(),
            name: "X".to_string(),
            original: "x".to_string(),
        },
    }];
    let suffixes: Vec<String> = ["1", "2", "3", "4", "5"].iter().map(|s| s.to_string()).collect();
    let (text, areas) = expand(&gaps, &calls, &Bbox::default(), 3, &answers, &suffixes);
    assert_eq!(
        text,
        "[out:json][timeout:3];\n\n<foreach.s->.internal__it_1(nwr.s(around.internal__it_1:5)->.internal__nearby_2; (.internal__nearby_2; - .internal__it_1;)->.internal__others_4; (.internal__collect_5; .internal__others_4;)->.internal__collect_5;); .internal__empty_3->._; .internal__collect_5|(area(id:7,8);)>\n\nout;>;out skel qt;"
    );
    assert_eq!(areas, vec![answers[0].area.clone()]);
}
