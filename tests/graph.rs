use netgraph::asset::NetworkGraphAssetType;
use netgraph::graph::NetworkGraph;
use netgraph::graph::NetworkGraphAsset;
use netgraph::graph::NetworkGraphLoadError;

fn names(g: &NetworkGraph) -> Vec<&str> {
    g.assets.iter().map(|a| a.name.as_str()).collect()
}

#[test]
fn test_network_graph_asset_type() {
    let asset_type = NetworkGraphAssetType::from_str("pc", vec![]).unwrap();
    assert_eq!(asset_type.as_str(), "pc");
}

#[test]
fn test_network_graph_asset() {
    let asset = NetworkGraphAsset {
        asset_type: NetworkGraphAssetType::Pc(),
        name: "My PC".to_string(),
    };
    assert_eq!(asset.name, "My PC");
    assert_eq!(asset.asset_type.as_str(), "pc");
}

#[test]
fn test_parsing_network_graph() {
    let text = "# test level\n\
                type pc l01\n\
                type pc l02\n\
                type pc l03\n\
                type router r01\n\
                \n\
                link l01 r01\n\
                link l02 r01\n\
                link l03 r01\n";
    let graph = NetworkGraph::parse(text).unwrap();
    assert_eq!(graph.assets.len(), 4);
    assert_eq!(graph.assets[0].name, "l01");
    assert_eq!(graph.assets[1].name, "l02");
    assert_eq!(graph.assets[2].name, "l03");
    assert_eq!(graph.assets[3].name, "r01");
    assert_eq!(graph.links.len(), 3);
    assert_eq!(graph.links[0], (0, 3));
    assert_eq!(graph.links[1], (1, 3));
    assert_eq!(graph.links[2], (2, 3));
}

#[test]
fn every_code_round_trips() {
    for code in ["pc", "router", "switch", "server", "firewall", "internet"] {
        let t = NetworkGraphAssetType::from_str(code, vec![]).unwrap();
        assert_eq!(t.as_str(), code);
        let again = NetworkGraphAssetType::from_str(t.as_str(), vec![]).unwrap();
        assert_eq!(again, t);
    }
    assert_eq!(NetworkGraphAssetType::Firewall().as_str(), "firewall");
    assert_eq!(NetworkGraphAssetType::Internet().as_str(), "internet");
}

#[test]
fn unknown_code_is_rejected() {
    let r = NetworkGraphAssetType::from_str("toaster", vec!["x".to_string()]);
    assert_eq!(r.unwrap_err(), "unknown asset type: toaster");
    assert!(NetworkGraphAssetType::from_str("PC", vec![]).is_err());
    assert!(NetworkGraphAssetType::from_str("", vec![]).is_err());
}

#[test]
fn scenario_two_pcs_and_a_router() {
    let text = "type pc l01\ntype pc l02\ntype router r01\nlink l01 r01\nlink l02 r01";
    let g = NetworkGraph::parse(text).unwrap();
    assert_eq!(names(&g), vec!["l01", "l02", "r01"]);
    assert_eq!(g.assets[0].asset_type, NetworkGraphAssetType::Pc());
    assert_eq!(g.assets[2].asset_type, NetworkGraphAssetType::Router());
    assert_eq!(g.links, vec![(0, 2), (1, 2)]);
}

#[test]
fn link_to_undeclared_name() {
    let text = "type pc l01\nlink l01 ghost\n";
    match NetworkGraph::parse(text) {
        Err(NetworkGraphLoadError::BadLinkError(line, msg)) => {
            assert_eq!(line, 2);
            assert_eq!(msg, "unknown asset: ghost");
        }
        other => panic!("unexpected {:?}", other.err()),
    }
}

#[test]
fn link_from_undeclared_name() {
    let text = "type pc l01\n\n# c\nlink nobody l01\n";
    match NetworkGraph::parse(text) {
        Err(NetworkGraphLoadError::BadLinkError(line, msg)) => {
            assert_eq!(line, 4);
            assert_eq!(msg, "unknown asset: nobody");
        }
        other => panic!("unexpected {:?}", other.err()),
    }
}

#[test]
fn unknown_directive() {
    let text = "type pc a\n   foobar baz   \n";
    match NetworkGraph::parse(text) {
        Err(NetworkGraphLoadError::InvalidDirective(line, t)) => {
            assert_eq!(line, 2);
            assert_eq!(t, "foobar baz");
        }
        other => panic!("unexpected {:?}", other.err()),
    }
}

#[test]
fn unknown_type_code() {
    let text = "type toaster k01";
    match NetworkGraph::parse(text) {
        Err(NetworkGraphLoadError::ObjectParseError(line, code, msg)) => {
            assert_eq!(line, 1);
            assert_eq!(code, "toaster");
            assert_eq!(msg, "unknown asset type: toaster");
        }
        other => panic!("unexpected {:?}", other.err()),
    }
}

#[test]
fn type_line_without_name() {
    for text in ["type pc", "type"] {
        match NetworkGraph::parse(text) {
            Err(NetworkGraphLoadError::ParseError(line, msg)) => {
                assert_eq!(line, 1);
                assert_eq!(msg, "invalid type declaration");
            }
            other => panic!("unexpected {:?}", other.err()),
        }
    }
}

#[test]
fn link_line_too_short() {
    let text = "type pc a\nlink a";
    match NetworkGraph::parse(text) {
        Err(NetworkGraphLoadError::BadLinkError(line, msg)) => {
            assert_eq!(line, 2);
            assert_eq!(msg, "invalid link declaration");
        }
        other => panic!("unexpected {:?}", other.err()),
    }
}

#[test]
fn forward_reference_fails() {
    let text = "type pc a\nlink a b\ntype pc b\n";
    assert!(matches!(
        NetworkGraph::parse(text),
        Err(NetworkGraphLoadError::BadLinkError(2, _))
    ));
}

#[test]
fn first_error_wins() {
    let text = "bogus\ntype toaster x\n";
    assert!(matches!(
        NetworkGraph::parse(text),
        Err(NetworkGraphLoadError::InvalidDirective(1, _))
    ));
}

#[test]
fn duplicate_names_bind_to_first() {
    let text = "type pc a\ntype server a\ntype router r\nlink r a\nlink a a\n";
    let g = NetworkGraph::parse(text).unwrap();
    assert_eq!(g.assets.len(), 3);
    assert_eq!(g.links, vec![(2, 0), (0, 0)]);
}

#[test]
fn empty_and_blank_text() {
    for text in ["", "\n\n", "   \t\n# only a comment\n"] {
        let g = NetworkGraph::parse(text).unwrap();
        assert!(g.assets.is_empty());
        assert!(g.links.is_empty());
    }
}

#[test]
fn params_and_odd_whitespace_are_accepted() {
    let text = "\ttype   switch  sw1  24 ports\r\n  link\tsw1 sw1  extra\r\n";
    let g = NetworkGraph::parse(text).unwrap();
    assert_eq!(names(&g), vec!["sw1"]);
    assert_eq!(g.assets[0].asset_type, NetworkGraphAssetType::Switch());
    assert_eq!(g.links, vec![(0, 0)]);
}

#[test]
fn keyword_must_be_a_whole_word() {
    match NetworkGraph::parse("types internet net\n") {
        Err(NetworkGraphLoadError::InvalidDirective(line, t)) => {
            assert_eq!(line, 1);
            assert_eq!(t, "types internet net");
        }
        other => panic!("unexpected {:?}", other.err()),
    }
    match NetworkGraph::parse("type internet net\nlinkx net net\n") {
        Err(NetworkGraphLoadError::InvalidDirective(line, t)) => {
            assert_eq!(line, 2);
            assert_eq!(t, "linkx net net");
        }
        other => panic!("unexpected {:?}", other.err()),
    }
    let g = NetworkGraph::parse("type\tinternet net\nlink  net net\n").unwrap();
    assert_eq!(g.assets[0].asset_type, NetworkGraphAssetType::Internet());
    assert_eq!(g.links, vec![(0, 0)]);
}

#[test]
fn parsing_twice_gives_the_same_graph() {
    let text = "type firewall fw\ntype server s\nlink fw s\nlink s fw\n";
    let a = NetworkGraph::parse(text).unwrap();
    let b = NetworkGraph::parse(text).unwrap();
    assert_eq!(names(&a), names(&b));
    assert_eq!(a.links, b.links);
    for (x, y) in a.assets.iter().zip(b.assets.iter()) {
        assert_eq!(x.asset_type, y.asset_type);
    }
}

#[test]
fn blank_and_comment_lines_change_nothing() {
    let plain = "type pc a\ntype router r\nlink a r\n";
    let padded = "\n# header\ntype pc a\n\n   # note\ntype router r\n\t\nlink a r\n# end\n";
    let a = NetworkGraph::parse(plain).unwrap();
    let b = NetworkGraph::parse(padded).unwrap();
    assert_eq!(names(&a), names(&b));
    assert_eq!(a.links, b.links);
}

#[test]
fn blank_lines_shift_error_line_numbers_only() {
    let plain = "type pc a\nlink a b\n";
    let padded = "type pc a\n\n# x\nlink a b\n";
    match (NetworkGraph::parse(plain), NetworkGraph::parse(padded)) {
        (
            Err(NetworkGraphLoadError::BadLinkError(l1, m1)),
            Err(NetworkGraphLoadError::BadLinkError(l2, m2)),
        ) => {
            assert_eq!((l1, l2), (2, 4));
            assert_eq!(m1, m2);
        }
        _ => panic!("expected two link errors"),
    }
}

#[test]
fn many_skipped_lines_shift_the_reported_line() {
    let plain = "type pc a\ntype toaster t\n";
    let padded = "# a\n\n  \ntype pc a\n# b\n\ntype toaster t\n";
    match (NetworkGraph::parse(plain), NetworkGraph::parse(padded)) {
        (
            Err(NetworkGraphLoadError::ObjectParseError(l1, c1, m1)),
            Err(NetworkGraphLoadError::ObjectParseError(l2, c2, m2)),
        ) => {
            assert_eq!((l1, l2), (2, 7));
            assert_eq!((c1, m1), (c2, m2));
        }
        _ => panic!("expected two type errors"),
    }
}

#[test]
fn links_stay_in_range() {
    let text = "type pc a\ntype pc b\ntype pc c\nlink c a\nlink b c\nlink a a\n";
    let g = NetworkGraph::parse(text).unwrap();
    for (i, j) in &g.links {
        assert!(*i < g.assets.len() && *j < g.assets.len());
    }
    assert_eq!(g.links, vec![(2, 0), (1, 2), (0, 0)]);
}
