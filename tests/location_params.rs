use nix_uri::{FlakeRefParameters, LocationParameters};

#[test]
fn location_params_empty() {
        let expected = LocationParameters::default();
        let mut in_str = "";
        let output = LocationParameters::parse(&mut in_str).unwrap();
        assert_eq!("", in_str);
        assert_eq!(output, expected);
    }

#[test]
fn location_params_empty_hash_terminated() {
        let expected = LocationParameters::default();
        let mut in_str = "#";
        let output = LocationParameters::parse(&mut in_str).unwrap();
        assert_eq!("#", in_str);
        assert_eq!(output, expected);
    }

#[test]
fn location_params_dir() {
        let mut expected = LocationParameters::default();
        expected.dir(Some("foo".to_string()));

        let mut in_str = "dir=foo";
        let output = LocationParameters::parse(&mut in_str).unwrap();
        assert_eq!("", in_str);
        assert_eq!(expected, output);

        let mut in_str = "&dir=foo";
        let output = LocationParameters::parse(&mut in_str).unwrap();
        assert_eq!("", in_str);
        assert_eq!(expected, output);
        let mut in_str = "dir=&dir=foo";
        let output = LocationParameters::parse(&mut in_str).unwrap();
        assert_eq!("", in_str);
        assert_eq!(expected, output);

        expected.dir(Some(String::new()));
        let mut in_str = "dir=";
        let output = LocationParameters::parse(&mut in_str).unwrap();
        assert_eq!("", in_str);
        assert_eq!(expected, output);
    }

#[test]
fn location_params_dir_hash_term() {
        let mut expected = LocationParameters::default();
        expected.dir(Some("foo".to_string()));

        let mut in_str = "dir=foo#fizz";
        let output = LocationParameters::parse(&mut in_str).unwrap();
        assert_eq!("#fizz", in_str);
        assert_eq!(expected, output);

        let mut in_str = "&dir=foo#fizz";
        let output = LocationParameters::parse(&mut in_str).unwrap();
        assert_eq!("#fizz", in_str);
        assert_eq!(expected, output);
        let mut in_str = "dir=&dir=foo#fizz";
        let output = LocationParameters::parse(&mut in_str).unwrap();
        assert_eq!("#fizz", in_str);
        assert_eq!(expected, output);

        expected.dir(Some(String::new()));
        let mut in_str = "dir=#fizz";
        let output = LocationParameters::parse(&mut in_str).unwrap();
        assert_eq!("#fizz", in_str);
        assert_eq!(expected, output);
    }

#[test]
fn preceded() {
        let ins = [
            "dir=foo#fizz",
            "&dir=foo#fizz",
            "dir=&dir=foo#fizz",
            "dir=#fizz",
        ];
        for mut instr in ins {
            assert_eq!(
                LocationParameters::parse_preceded(&mut format!("?{}", instr).as_str()),
                LocationParameters::parse(&mut instr)
            );
        }
    }

#[test]
fn fr_params_empty() {
    let expected = FlakeRefParameters::default();
    let mut in_str = "?";
    let output = FlakeRefParameters::parse_preceded(&mut in_str).unwrap();
    assert_eq!("", in_str);
    assert_eq!(output, expected);
}

#[test]
fn fr_params_empty_hash_terminated() {
    let expected = FlakeRefParameters::default();
    let mut in_str = "?#";
    let output = FlakeRefParameters::parse_preceded(&mut in_str).unwrap();
    assert_eq!("#", in_str);
    assert_eq!(output, expected);
}

#[test]
fn fr_params_dir() {
    let mut expected = FlakeRefParameters::default();
    expected.dir(Some("foo".to_string()));

    let mut in_str = "?dir=foo";
    let output = FlakeRefParameters::parse_preceded(&mut in_str).unwrap();
    assert_eq!("", in_str);
    assert_eq!(output, expected);

    let mut in_str = "?&dir=foo";
    let output = FlakeRefParameters::parse_preceded(&mut in_str).unwrap();
    assert_eq!("", in_str);
    assert_eq!(output, expected);
    let mut in_str = "?dir=&dir=foo";
    let output = FlakeRefParameters::parse_preceded(&mut in_str).unwrap();
    assert_eq!("", in_str);
    assert_eq!(output, expected);

    expected.dir(Some("".to_string()));
    let mut in_str = "?dir=";
    let output = FlakeRefParameters::parse_preceded(&mut in_str).unwrap();
    assert_eq!("", in_str);
    assert_eq!(output, expected);
}

#[test]
fn fr_params_dir_hash_term() {
    let mut expected = FlakeRefParameters::default();
    expected.dir(Some("foo".to_string()));

    let mut in_str = "?dir=foo#fizz";
    let output = FlakeRefParameters::parse_preceded(&mut in_str).unwrap();
    assert_eq!("#fizz", in_str);
    assert_eq!(output, expected);

    let mut in_str = "?&dir=foo#fizz";
    let output = FlakeRefParameters::parse_preceded(&mut in_str).unwrap();
    assert_eq!("#fizz", in_str);
    assert_eq!(output, expected);
    let mut in_str = "?dir=&dir=foo#fizz";
    let output = FlakeRefParameters::parse_preceded(&mut in_str).unwrap();
    assert_eq!("#fizz", in_str);
    assert_eq!(output, expected);

    expected.dir(Some("".to_string()));
    let mut in_str = "?dir=#fizz";
    let output = FlakeRefParameters::parse_preceded(&mut in_str).unwrap();
    assert_eq!("#fizz", in_str);
    assert_eq!(output, expected);
}

#[test]
fn parse_preceded_needs_question_mark() {
    let mut in_str = "dir=foo";
    let err = LocationParameters::parse_preceded(&mut in_str).unwrap_err();
    assert_eq!(err, nix_uri::NixUriError::ParseError("dir=foo".into()));
    assert_eq!(in_str, "dir=foo");
}
