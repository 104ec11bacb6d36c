use spades_runner::parser::{parse_sample_line, parse_seqdir, ManifestError, SeqDirs};

#[test]
fn input_ini_test() {
    let input = "[samples]\nsome_animals:folder/target/\nother_animals:folder/other/\n";
    let samples = parse_seqdir(&input).unwrap();

    assert_eq!(2, samples.len());
}

#[test]
fn split_csv_test() {
    let line = "some_animals,folder/target/";
    let mut samples = SeqDirs::new();

    samples.parse_csv(&line).unwrap();
    assert_eq!("some_animals", samples.id);
    assert_eq!("folder/target/", samples.dir);
}

#[test]
fn split_csv_whitespaces_test() {
    let line = " some_animals,folder/target/ ";
    let mut samples = SeqDirs::new();

    samples.parse_csv(&line).unwrap();
    assert_eq!("some_animals", samples.id);
    assert_eq!("folder/target/", samples.dir);
}

#[test]
fn split_ini_test() {
    let line = "some_animals:folder/target/";
    let mut samples = SeqDirs::new();

    samples.parse_ini(&line).unwrap();
    assert_eq!("some_animals", samples.id);
    assert_eq!("folder/target/", samples.dir);
}

#[test]
#[should_panic]
fn split_ini_panic_test() {
    let line = "some_animals:folder/target/:random";
    let mut samples = SeqDirs::new();

    samples.parse_ini(&line).unwrap();
}

#[test]
fn three_fields_are_refused_with_the_fields_found() {
    let mut samples = SeqDirs::new();
    let r = samples.parse_ini("some_animals: folder/target/ :random");
    match r {
        Err(ManifestError::InvalidManifestFields { fields }) => {
            assert_eq!(fields, vec!["some_animals", "folder/target/", "random"]);
        }
        _ => panic!("three fields were accepted"),
    }
    assert_eq!(samples.id, "");
    assert_eq!(samples.dir, "");
}

#[test]
fn one_field_is_refused() {
    let mut samples = SeqDirs::new();
    assert!(matches!(
        samples.parse_csv("alone"),
        Err(ManifestError::InvalidManifestFields { .. })
    ));
}

#[test]
fn white_space_around_fields_is_dropped() {
    let s = parse_sample_line("\t some animals \u{a0}:\u{2003}folder/my target/  ").unwrap();
    assert_eq!(s.id, "some animals");
    assert_eq!(s.dir, "folder/my target/");
}

#[test]
fn a_comma_decides_before_a_colon() {
    let s = parse_sample_line("a:b,c:d").unwrap();
    assert_eq!(s.id, "a:b");
    assert_eq!(s.dir, "c:d");
}

#[test]
fn a_line_without_separator_is_refused_with_the_line() {
    match parse_sample_line("some_animals folder") {
        Err(ManifestError::InvalidManifestFormat { line }) => {
            assert_eq!(line, "some_animals folder")
        }
        _ => panic!("a line without separator was accepted"),
    }
}

#[test]
fn the_header_is_passed_over_whatever_it_holds() {
    let samples = parse_seqdir("no separator at all\na,b\n").unwrap();
    assert_eq!(samples.len(), 1);
    assert_eq!(samples[0].id, "a");
    assert_eq!(samples[0].dir, "b");
}

#[test]
fn separators_may_differ_from_line_to_line() {
    let samples = parse_seqdir("id,dir\na , x/\nb : y/\nc,z/").unwrap();
    let got: Vec<(String, String)> =
        samples.into_iter().map(|s| (s.id, s.dir)).collect();
    let want: Vec<(String, String)> = vec![
        ("a".to_string(), "x/".to_string()),
        ("b".to_string(), "y/".to_string()),
        ("c".to_string(), "z/".to_string()),
    ];
    assert_eq!(got, want);
}

#[test]
fn empty_lines_declare_nothing() {
    let samples = parse_seqdir("id,dir\n\na,x\n\r\n\nb,y\n\n").unwrap();
    assert_eq!(samples.len(), 2);
    assert_eq!(samples[1].id, "b");
}

#[test]
fn lines_may_end_in_carriage_return() {
    let samples = parse_seqdir("id,dir\r\na,x\r\nb:y\r\n").unwrap();
    assert_eq!(samples.len(), 2);
    assert_eq!(samples[0].dir, "x");
    assert_eq!(samples[1].dir, "y");
}

#[test]
fn an_empty_manifest_declares_nothing() {
    assert_eq!(parse_seqdir("").unwrap().len(), 0);
    assert_eq!(parse_seqdir("id,dir").unwrap().len(), 0);
    assert_eq!(parse_seqdir("id,dir\n").unwrap().len(), 0);
}

#[test]
fn the_first_line_that_is_refused_decides() {
    let r = parse_seqdir("id,dir\na,x\nbroken\nb,y,z\n");
    match r {
        Err(ManifestError::InvalidManifestFormat { line }) => assert_eq!(line, "broken"),
        _ => panic!("wrong result"),
    }
    let r = parse_seqdir("id,dir\na,x\nb,y,z\nbroken\n");
    match r {
        Err(ManifestError::InvalidManifestFields { fields }) => {
            assert_eq!(fields, vec!["b", "y", "z"])
        }
        _ => panic!("wrong result"),
    }
}

#[test]
fn a_line_of_white_space_is_refused() {
    assert!(matches!(
        parse_seqdir("id,dir\n   \n"),
        Err(ManifestError::InvalidManifestFormat { .. })
    ));
}
