use a11y_tree::endpoint::{Endpoint, REGISTRY_DEST};
use a11y_tree::resolve::{
    answer_of, classify, parse_bus_name, parse_yn_response, registration_order, Candidate,
    MatchTier, Offer, Resolution, ResolveError, Scan,
};

fn ep(s: &str) -> Endpoint {
    Endpoint::parse(s).unwrap()
}

#[test]
fn empty_token_is_the_registry() {
    match parse_bus_name(String::new()) {
        Resolution::Resolved(v) => {
            assert_eq!(v.len(), 1);
            assert_eq!(v[0].name, REGISTRY_DEST);
            assert_eq!(v[0].endpoint.as_str(), "org.a11y.atspi.Registry");
        }
        Resolution::Search(_) => panic!("expected the registry"),
    }
}

#[test]
fn valid_bus_name_passes_through() {
    for token in ["org.gnome.Calculator", ":1.42", "a.b"] {
        match parse_bus_name(token.to_string()) {
            Resolution::Resolved(v) => {
                assert_eq!(v.len(), 1);
                assert_eq!(v[0].name, token);
                assert_eq!(v[0].endpoint.as_str(), token);
            }
            Resolution::Search(_) => panic!("expected {token} to pass through"),
        }
    }
}

#[test]
fn application_name_starts_a_scan() {
    match parse_bus_name("Foo".to_string()) {
        Resolution::Search(s) => assert_eq!(s.sought_name(), "Foo"),
        Resolution::Resolved(_) => panic!("expected a scan"),
    }
}

#[test]
fn endpoint_grammar() {
    assert!(Endpoint::parse("org.a11y.atspi.Registry").is_some());
    assert!(Endpoint::parse(":1.0").is_some());
    assert!(Endpoint::parse("_a.-b").is_some());
    assert!(Endpoint::parse("").is_none());
    assert!(Endpoint::parse("Foo").is_none());
    assert!(Endpoint::parse("1a.b").is_none());
    assert!(Endpoint::parse("a.1b").is_none());
    assert!(Endpoint::parse("a..b").is_none());
    assert!(Endpoint::parse(".a.b").is_none());
    assert!(Endpoint::parse("a.b.").is_none());
    assert!(Endpoint::parse(":1").is_none());
    assert!(Endpoint::parse("a b.c").is_none());
    let long = format!("a.{}", "b".repeat(254));
    assert!(Endpoint::parse(&long).is_none());
    let just = format!("a.{}", "b".repeat(253));
    assert!(Endpoint::parse(&just).is_some());
}

#[test]
fn scan_tie_break_accepts_exact_and_asks_in_order() {
    // The registry lists the oldest application first.
    let registered = vec!["Foobar", "foo", "Foo"];
    let order = registration_order(registered);
    assert_eq!(order, vec!["Foo", "foo", "Foobar"]);
    let mut scan = Scan::new("Foo".to_string());
    let mut asked = Vec::new();
    for (i, name) in order.iter().enumerate() {
        let endpoint = ep(&format!("org.app.N{i}"));
        match scan.offer(name.to_string(), endpoint) {
            Offer::Accepted => assert_eq!(*name, "Foo"),
            Offer::Ask(tier, c) => asked.push((tier, c.name)),
            Offer::Skipped => panic!("nothing is skipped here"),
        }
    }
    assert_eq!(
        asked,
        vec![
            (MatchTier::CaseInsensitive, "foo".to_string()),
            (MatchTier::Partial, "Foobar".to_string()),
        ]
    );
    let found = scan.finish().unwrap();
    assert_eq!(found.len(), 1);
    assert_eq!(found[0].name, "Foo");
}

#[test]
fn scan_confirm_accepts_declines_and_fails() {
    let mut scan = Scan::new("calc".to_string());
    let c = Candidate { name: "Calculator".to_string(), endpoint: ep(":1.7") };
    assert_eq!(scan.confirm(c.clone(), "n\n"), Ok(()));
    assert_eq!(scan.confirm(c.clone(), "YES\n"), Ok(()));
    assert_eq!(
        scan.confirm(c.clone(), "maybe"),
        Err(ResolveError::InvalidAnswer("maybe".to_string()))
    );
    let found = scan.finish().unwrap();
    assert_eq!(found, vec![c]);
}

#[test]
fn scan_without_matches_fails() {
    let mut scan = Scan::new("Writer".to_string());
    assert_eq!(scan.offer("Calculator".to_string(), ep(":1.3")), Offer::Skipped);
    assert_eq!(scan.finish(), Err(ResolveError::NoApplication("Writer".to_string())));
}

#[test]
fn classify_tiers() {
    let s = |x: &str| x.to_string();
    assert_eq!(classify(&s("Foo"), &s("Foo")), MatchTier::Exact);
    assert_eq!(classify(&s("FOO"), &s("foo")), MatchTier::CaseInsensitive);
    assert_eq!(classify(&s("My FOOD app"), &s("food")), MatchTier::Partial);
    assert_eq!(classify(&s("Bar"), &s("foo")), MatchTier::NoMatch);
    assert_eq!(classify(&s("foo"), &s("Foobar")), MatchTier::NoMatch);
}

#[test]
fn prompt_answers() {
    for a in ["y", "Y", "yes", "", "  Yes \n", "\n"] {
        assert_eq!(parse_yn_response(a), Ok(true), "{a:?}");
    }
    for a in ["n", "N", "no", "NO\n"] {
        assert_eq!(parse_yn_response(a), Ok(false), "{a:?}");
    }
    assert_eq!(parse_yn_response("maybe"), Err(ResolveError::InvalidAnswer("maybe".to_string())));
    assert_eq!(parse_yn_response(" Maybe\n"), Err(ResolveError::InvalidAnswer("maybe".to_string())));
}

#[test]
fn normalized_answers() {
    assert_eq!(answer_of(&"yes".to_string()), Ok(true));
    assert_eq!(answer_of(&String::new()), Ok(true));
    assert_eq!(answer_of(&"no".to_string()), Ok(false));
    assert_eq!(answer_of(&"Y".to_string()), Err(ResolveError::InvalidAnswer("Y".to_string())));
}

#[test]
fn registration_order_reverses() {
    assert_eq!(registration_order(vec![1, 2, 3]), vec![3, 2, 1]);
    assert_eq!(registration_order(Vec::<u8>::new()), Vec::<u8>::new());
}
