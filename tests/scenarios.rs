use nix_uri::location_params::LocationParamKeys;
use nix_uri::parser::parse_nix_uri;
use nix_uri::urls::{type_from_host, UrlWrapper};
use nix_uri::{
    FlakeRef, FlakeRefType, GitForge, GitForgePlatform, LocationParameters, NixUriError,
    ResourceType, ResourceUrl, TransportLayer,
};

fn round_trip(input: &str) {
    let parsed: FlakeRef = input.parse().unwrap();
    let rendered = parsed.to_string();
    let reparsed: FlakeRef = rendered.parse().unwrap();
    assert_eq!(parsed, reparsed, "{} rendered as {}", input, rendered);
}

#[test]
fn render_of_parsed_rev_uri() {
    let uri = "github:zellij-org/zellij?rev=b2df4e4e80e04cbb33a350f87717f4bd6140d298";
    assert_eq!(FlakeRef::from(uri).unwrap().to_string(), uri);
}

#[test]
fn git_and_github_are_told_apart() {
    let git = FlakeRef::from("git:///foo/bar").unwrap();
    let hub = FlakeRef::from("github:foo/bar").unwrap();
    assert_eq!(
        git.kind,
        FlakeRefType::Resource(ResourceUrl {
            res_type: ResourceType::Git,
            location: "/foo/bar".into(),
            transport_type: None,
        })
    );
    assert_eq!(
        hub.kind,
        FlakeRefType::GitForge(GitForge {
            platform: GitForgePlatform::GitHub,
            owner: "foo".into(),
            repo: "bar".into(),
            ref_or_rev: None,
        })
    );
    assert_ne!(git, hub);
}

#[test]
fn round_trips() {
    for input in [
        "github:nixos/nixpkgs",
        "github:owner/repo/rev?dir=foo",
        "gitlab:fpottier/menhir/20201216?host=gitlab.inria.fr",
        "sourcehut:~misterio/nix-colors/main?host=hg.sr.ht",
        "git+https://git.somehost.tld/user/path?ref=branch&rev=fdc8ef9",
        "hg+https://www.github.com/ocaml/ocaml-lsp",
        "git://github.com/user/repo.git",
        "tarball+https://example.com/file.tar.gz",
        "https://example.com/file.zip",
        "file+file:///foo/bar",
        "path:/home/user/flake",
        "./relative/path?dir=x",
        "nixpkgs/nixos-23.05",
        "flake:my-flake",
        "github:a/b?foo=1&dir=d&bar=2&submodules=1&shallow=1&nar_hash=h&branch=b",
    ] {
        round_trip(input);
    }
}

#[test]
fn render_canonical_order() {
    let f = FlakeRef::from("github:a/b?foo=1&rev=r&dir=d&bar=2").unwrap();
    assert_eq!(f.to_string(), "github:a/b?dir=d&rev=r&foo=1&bar=2");
    let f = FlakeRef::from("github:a/b/?ref=main").unwrap();
    assert_eq!(f.to_string(), "github:a/b?ref=main");
    let f = FlakeRef::from("hg+https://host/r").unwrap();
    assert_eq!(f.to_string(), "hg+https://host/r");
    assert_eq!(FlakeRef::default().to_string(), "");
}

#[test]
fn known_key_last_write_wins() {
    let f = FlakeRef::from("github:a/b?dir=x&dir=y").unwrap();
    let mut expected = LocationParameters::default();
    expected.set_dir(Some("y".into()));
    assert_eq!(f.params, expected);
}

#[test]
fn arbitrary_params_kept_in_order() {
    let f = FlakeRef::from("github:a/b?zeta=1&alpha=2").unwrap();
    let mut expected = LocationParameters::default();
    expected.add_arbitrary(("zeta".into(), "1".into()));
    expected.add_arbitrary(("alpha".into(), "2".into()));
    assert_eq!(f.params, expected);
    assert_eq!(expected.to_string(), "zeta=1&alpha=2");
}

#[test]
fn params_stop_at_pair_without_equals() {
    let mut input = "github:a/b?dir=x&flag#attr";
    let f = FlakeRef::parse(&mut input).unwrap();
    assert_eq!(input, "&flag#attr");
    assert_eq!(f.params.dir, Some("x".to_string()));
}

#[test]
fn error_kinds() {
    assert_eq!(
        parse_nix_uri("path:foo"),
        Err(NixUriError::NotAbsolute("foo".into()))
    );
    assert_eq!(
        parse_nix_uri("/a[b]"),
        Err(NixUriError::PathCharacter("/a[b]".into()))
    );
    assert_eq!(
        parse_nix_uri("github:"),
        Err(NixUriError::MissingTypeParameter(
            "github".into(),
            "owner".into()
        ))
    );
    assert_eq!(
        parse_nix_uri("svn://host/x"),
        Err(NixUriError::UnknownUriType("svn".into()))
    );
    assert_eq!(
        parse_nix_uri("git+ftp://host/x"),
        Err(NixUriError::UnknownTransportLayer("ftp".into()))
    );
    assert_eq!(
        parse_nix_uri("git:host"),
        Err(NixUriError::ParseError(":host".into()))
    );
    assert_eq!(
        parse_nix_uri("my-flake/a/b"),
        Err(NixUriError::InvalidUrl("my-flake/a/b".into()))
    );
    assert_eq!(
        parse_nix_uri("a\tb"),
        Err(NixUriError::InvalidUrl("a\tb".into()))
    );
    assert_eq!(
        parse_nix_uri("caf\u{e9}"),
        Err(NixUriError::InvalidUrl("caf\u{e9}".into()))
    );
    assert_eq!(parse_nix_uri("?"), Err(NixUriError::InvalidUrl("?".into())));
    assert_eq!(
        FlakeRefType::parse_type("github:a/b#x"),
        Err(NixUriError::ParseError("#x".into()))
    );
}

#[test]
fn ref_or_rev_only_on_forge_and_indirect() {
    let mut t = FlakeRefType::Indirect {
        id: "nixpkgs".into(),
        ref_or_rev: None,
    };
    t.ref_or_rev(Some("unstable".into())).unwrap();
    assert_eq!(t.to_string(), "nixpkgs/unstable");
    let mut g = FlakeRef::from("github:o/r").unwrap();
    g.kind.ref_or_rev(Some("v2".into())).unwrap();
    assert_eq!(g.to_string(), "github:o/r/v2");
    assert_eq!(g.kind.get_owner(), Some("o".to_string()));
    assert_eq!(g.kind.get_repo(), Some("r".to_string()));
    assert_eq!(g.id(), Some("r".to_string()));
    let mut p = FlakeRefType::Path { path: "/x".into() };
    assert_eq!(
        p.ref_or_rev(Some("v".into())),
        Err(NixUriError::UnsupportedByType(
            "ref_or_rev".into(),
            "git-forge types && indirect types".into()
        ))
    );
    assert_eq!(p, FlakeRefType::Path { path: "/x".into() });
    assert_eq!(p.get_owner(), None);
}

#[test]
fn key_table() {
    assert!(matches!(
        LocationParamKeys::from_key("&dir"),
        LocationParamKeys::Dir
    ));
    assert!(matches!(
        LocationParamKeys::from_key("nar_hash"),
        LocationParamKeys::NarHash
    ));
    match LocationParamKeys::from_key("narHash") {
        LocationParamKeys::Arbitrary(k) => assert_eq!(k, "narHash"),
        _ => panic!("narHash is not a known key"),
    }
}

#[test]
fn params_builders_and_getters() {
    let mut p = LocationParameters::default();
    p.dir(Some("d".into())).git_ref(Some("main".into())).rev(Some("abc".into()));
    assert_eq!(p.get_ref(), Some(&"main".to_string()));
    assert_eq!(p.get_rev(), Some(&"abc".to_string()));
    *p.rev_count_mut() = Some("3".into());
    assert_eq!(p.rev_count, Some("3".to_string()));
    assert_eq!(p.to_string(), "dir=d&ref=main&rev=abc");
}

#[test]
fn url_inference() {
    let f = UrlWrapper::convert_or_parse("https://github.com/nixos/nixpkgs/tree/main").unwrap();
    assert_eq!(
        f.kind,
        FlakeRefType::GitForge(GitForge {
            platform: GitForgePlatform::GitHub,
            owner: "nixos".into(),
            repo: "nixpkgs".into(),
            ref_or_rev: Some("tree/main".into()),
        })
    );
    let f = UrlWrapper::convert_or_parse("https://example.org/x/y").unwrap();
    assert_eq!(
        f.kind,
        FlakeRefType::Resource(ResourceUrl {
            res_type: ResourceType::File,
            location: "example.org/x/y".into(),
            transport_type: Some(TransportLayer::Https),
        })
    );
    let f = UrlWrapper::convert_or_parse("github:nixos/nixpkgs").unwrap();
    assert_eq!(f.to_string(), "github:nixos/nixpkgs");
    let f = UrlWrapper::convert_or_parse("https://example.org/a.tar.gz").unwrap();
    assert_eq!(
        f.kind,
        FlakeRefType::Resource(ResourceUrl {
            res_type: ResourceType::Tarball,
            location: "example.org/a.tar.gz".into(),
            transport_type: Some(TransportLayer::Https),
        })
    );
    assert!(UrlWrapper::convert_or_parse("https://github.com/nixos").is_err());
    assert_eq!(
        FlakeRef::infer_from_url("https://github.com/o/r"),
        Some(FlakeRefType::GitForge(GitForge {
            platform: GitForgePlatform::GitHub,
            owner: "o".into(),
            repo: "r".into(),
            ref_or_rev: None,
        }))
    );
    assert_eq!(FlakeRef::infer_from_url("https://example.org/o/r"), None);
    assert_eq!(FlakeRef::infer_from_url("https://github.com/o"), None);
    assert_eq!(FlakeRef::infer_from_url("not a url"), None);
    let url = url::Url::parse("https://example.org/o/r").unwrap();
    let mut w = UrlWrapper::new(url);
    w.infer_type(false).explicit_type(FlakeRefType::Path { path: "/p".into() });
    assert!(!w.infer_type);
}

#[test]
fn convert_parts_exact() {
    let f = UrlWrapper::convert_parts(
        "github.com",
        Some(vec!["o".into(), "r".into(), "a".into(), "b".into()]),
        Some("dir=x&k=v"),
    )
    .unwrap();
    assert_eq!(f.to_string(), "github:o/r/a/b?dir=x&k=v");
    assert_eq!(
        type_from_host("github.com", None),
        Err(NixUriError::Error(
            "Error parsing from host: github.com".into()
        ))
    );
    assert_eq!(
        type_from_host("gitlab.com", Some(vec!["o".into()])),
        Ok(FlakeRefType::Unset)
    );
    assert_eq!(
        UrlWrapper::convert_parts("gitlab.com", Some(vec!["o".into(), "r".into()]), None),
        Err(NixUriError::InvalidType("gitlab.com".into()))
    );
}

#[test]
fn ref_or_rev_is_read_further() {
    let mut short = "github:owner/repo";
    let mut long = "github:owner/repo/rev";
    let short_len = short.len();
    let long_len = long.len();
    FlakeRef::parse(&mut short).unwrap();
    FlakeRef::parse(&mut long).unwrap();
    let consumed_short = short_len - short.len();
    let consumed_long = long_len - long.len();
    assert_eq!(consumed_short, 17);
    assert_eq!(consumed_long, 21);
    assert!(consumed_long > consumed_short);
}

#[test]
fn parse_render_parse_is_stable() {
    for input in [
        "github:a/b/?dir=x#attr",
        "git+ssh://host/repo?&ref=main&rev=abc",
        "/home/user/flake?dir=sub",
        "nixpkgs?custom=1",
    ] {
        let first = parse_nix_uri(input).unwrap();
        let second = parse_nix_uri(&first.to_string()).unwrap();
        assert_eq!(first, second, "{}", input);
        assert_eq!(first.to_string(), second.to_string());
    }
}

#[test]
fn url_conversion_params_and_fallback() {
    let f = UrlWrapper::convert_or_parse("https://github.com/nixos/nixpkgs?dir=foo").unwrap();
    assert_eq!(f.to_string(), "github:nixos/nixpkgs?dir=foo");
    let f = UrlWrapper::convert_or_parse("http://gitlab.com/a/b").unwrap();
    assert_eq!(f.to_string(), "file+http://gitlab.com/a/b");
}

#[test]
fn path_prefix_needs_absolute_path() {
    assert_eq!(
        FlakeRefType::parse_type("path:./x"),
        Err(NixUriError::NotAbsolute("./x".into()))
    );
    assert_eq!(
        FlakeRefType::parse_type("path:/a?b"),
        Err(NixUriError::PathCharacter("/a?b".into()))
    );
    assert_eq!(
        FlakeRefType::parse_type("path:/a[b]"),
        Err(NixUriError::PathCharacter("/a[b]".into()))
    );
    assert_eq!(
        FlakeRefType::parse_type("./x"),
        Ok(FlakeRefType::Path { path: "./x".into() })
    );
}

#[test]
fn tag_before_colon_may_hold_slashes() {
    assert_eq!(
        FlakeRefType::parse_type("ab/cd:x"),
        Err(NixUriError::UnknownUriType("ab/cd".into()))
    );
}

#[test]
fn flake_prefix_ref_may_hold_slashes() {
    assert_eq!(
        FlakeRefType::parse_type("flake:a/b/c"),
        Ok(FlakeRefType::Indirect {
            id: "a".into(),
            ref_or_rev: Some("b/c".into()),
        })
    );
    let f = FlakeRef::from("flake:nixpkgs?dir=x").unwrap();
    assert_eq!(f.to_string(), "nixpkgs?dir=x");
}

#[test]
fn url_wrapper_from_text() {
    let w = UrlWrapper::try_from("https://github.com/o/r").unwrap();
    assert!(w.infer_type);
    assert_eq!(w.explicit_type, FlakeRefType::Unset);
    assert!(matches!(
        UrlWrapper::try_from("not a url"),
        Err(NixUriError::ServoUrl(_))
    ));
}

#[test]
fn bare_id_with_two_slashes_anywhere_fails() {
    assert_eq!(
        FlakeRefType::parse("ab/c?x/y"),
        Err(NixUriError::InvalidUrl("ab/c".into()))
    );
    assert!(FlakeRefType::parse("ab/c?x=y").is_ok());
}

#[test]
fn path_and_file_helpers() {
    assert_eq!(FlakeRefType::path_parser("./a/b?x"), Ok(("?x", "./a/b")));
    assert_eq!(FlakeRefType::parse_naked("/a#b"), Ok(("#b", "/a")));
    assert_eq!(
        FlakeRefType::parse_naked("a/b"),
        Err(NixUriError::NotAbsolute("a/b".into()))
    );
    assert_eq!(FlakeRefType::path_verifier("a/b?c"), Ok(("?c", "a/b")));
    assert_eq!(
        FlakeRefType::path_verifier("a[b"),
        Err(NixUriError::PathCharacter("a[b".into()))
    );
    assert_eq!(
        FlakeRefType::parse_explicit_file_scheme("file:///x/y?z"),
        Ok(("?z", "/x/y"))
    );
    assert_eq!(
        FlakeRefType::parse_explicit_file_scheme("file+file:/x"),
        Ok(("", "/x"))
    );
    assert_eq!(
        FlakeRefType::parse_file_with_http_transport("file+https://h/f.txt#a"),
        Ok((
            "#a",
            FlakeRefType::Resource(ResourceUrl {
                res_type: ResourceType::File,
                location: "h/f.txt".into(),
                transport_type: Some(TransportLayer::Https),
            })
        ))
    );
    assert_eq!(
        FlakeRefType::parse_file_with_http_transport("file+ssh://h"),
        Err(NixUriError::ParseError("file+ssh://h".into()))
    );
    assert_eq!(
        FlakeRefType::parse_http_file_scheme("file+https://h/f?x"),
        Ok(("?x", "h/f"))
    );
    assert_eq!(
        FlakeRefType::parse_http_file_scheme("file://h"),
        Err(NixUriError::ParseError("file://h".into()))
    );
}

#[test]
fn registry_id_renders_bare() {
    let t = FlakeRefType::Indirect {
        id: "nixpkgs".into(),
        ref_or_rev: None,
    };
    assert_eq!(t.to_string(), "nixpkgs");
    assert_eq!(FlakeRef::new(t).to_string(), "nixpkgs");
    assert_eq!(
        FlakeRef::from("flake:nixpkgs/nixos-23.05").unwrap().to_string(),
        "nixpkgs/nixos-23.05"
    );
}
