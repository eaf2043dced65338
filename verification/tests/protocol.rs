use core::str::FromStr;

use monrst::model::user::Discriminator;
use monrst::protocol::{negotiate, parse_params, Configuration, Format, HandshakeError, Version};

#[test]
fn versions() {
    assert_eq!(
        "1.2.3".parse::<Version>().unwrap(),
        Version {
            major: 1,
            minor: 2,
            patch: 3,
            extra_labels: None
        }
    );
    assert_eq!(
        "4.5.6-beta".parse::<Version>().unwrap(),
        Version {
            major: 4,
            minor: 5,
            patch: 6,
            extra_labels: Some("beta".to_owned())
        }
    );

    assert!(Version::are_compatible(
        &Version {
            major: 0,
            minor: 1,
            patch: 2,
            extra_labels: None
        },
        &Version {
            major: 0,
            minor: 1,
            patch: 5,
            extra_labels: Some("beta".to_owned())
        }
    ));
    assert!(Version::are_compatible(
        &Version {
            major: 1,
            minor: 2,
            patch: 3,
            extra_labels: None
        },
        &Version {
            major: 1,
            minor: 4,
            patch: 5,
            extra_labels: Some("alpha".to_owned())
        }
    ));
    assert!(!Version::are_compatible(
        &Version {
            major: 0,
            minor: 1,
            patch: 2,
            extra_labels: None
        },
        &Version {
            major: 0,
            minor: 3,
            patch: 4,
            extra_labels: None
        }
    ));
    assert!(!Version::are_compatible(
        &Version {
            major: 2,
            minor: 2,
            patch: 3,
            extra_labels: None
        },
        &Version {
            major: 1,
            minor: 4,
            patch: 5,
            extra_labels: Some("alpha".to_owned())
        }
    ));
}

#[test]
fn discriminator() {
    assert_eq!(
        Discriminator([0x12_u8, 0xA0_u8, 0xBC_u8]),
        Discriminator::from_str("12A0BC").unwrap()
    );
    assert!(Discriminator::from_str("1234567").is_err());
    assert!(Discriminator::from_str("12CD5Z").is_err());
}

#[test]
fn discriminator_lower_case() {
    assert_eq!(
        Discriminator([0xAB_u8, 0xCD_u8, 0xEF_u8]),
        Discriminator::from_str("abcdef").unwrap()
    );
    assert!(Discriminator::from_str("").is_err());
    assert!(Discriminator::from_str("+1+2+3").is_err());
}

#[test]
fn version_with_too_few_fields_fails() {
    assert!(Version::parse("1.2").is_err());
    assert_eq!(
        Version::parse("1.2").unwrap_err(),
        HandshakeError::MalformedVersion
    );
    assert!(Version::parse("").is_err());
    assert!(Version::parse("1.2.x").is_err());
    assert!(Version::parse("a.2.3").is_err());
}

#[test]
fn version_parsing_reads_the_first_three_fields() {
    assert_eq!(
        Version::parse("1.2.3.4").unwrap(),
        Version {
            major: 1,
            minor: 2,
            patch: 3,
            extra_labels: None
        }
    );
    assert_eq!(
        Version::parse("+1.2.3").unwrap(),
        Version {
            major: 1,
            minor: 2,
            patch: 3,
            extra_labels: None
        }
    );
    assert!(Version::parse("99999999999999999999.0.0").is_err());
}

#[test]
fn version_labels_are_opaque_to_the_end_of_the_text() {
    assert_eq!(
        Version::parse("1.2.3-beta-2").unwrap().extra_labels,
        Some("beta-2".to_owned())
    );
    assert_eq!(
        Version::parse("1.2.3-a.b").unwrap().extra_labels,
        Some("a.b".to_owned())
    );
    assert_eq!(Version::parse("1.2.3-").unwrap().extra_labels, Some(String::new()));
}

#[test]
fn version_render_is_the_inverse_of_parsing() {
    let version = Version::parse("1.2.3").unwrap();
    assert_eq!(version.render(), "1.2.3");
    let labelled = Version::parse("4.5.6-beta").unwrap();
    assert_eq!(labelled.render(), "4.5.6-beta");
    let large = Version::parse("10.200.3000").unwrap();
    assert_eq!(large.render(), "10.200.3000");
    let dashed = Version::parse("4.5.6-beta-2").unwrap();
    assert_eq!(dashed.render(), "4.5.6-beta-2");
    let dotted = Version::parse("4.5.6-a.b").unwrap();
    assert_eq!(dotted.render(), "4.5.6-a.b");
}

#[test]
fn format_parsing_ignores_case() {
    assert_eq!(Format::parse("binary").unwrap(), Format::Binary);
    assert_eq!(Format::parse("BINARY").unwrap(), Format::Binary);
    assert_eq!(Format::parse("json").unwrap(), Format::Json);
    assert_eq!(Format::parse("JSON").unwrap(), Format::Json);
    assert_eq!(Format::parse("Json").unwrap(), Format::Json);
    assert_eq!(
        Format::parse("xml").unwrap_err(),
        HandshakeError::UnknownFormat
    );
    assert_eq!(Format::from_str("binary").unwrap(), Format::Binary);
}

#[test]
fn configuration_version_is_the_server_version() {
    assert_eq!(Configuration::version(), "0.1.0");
}

fn params(pairs: &[(&str, &str)]) -> Vec<(String, String)> {
    pairs
        .iter()
        .map(|(k, v)| (k.to_string(), v.to_string()))
        .collect()
}

#[test]
fn upgrade_lines_split_into_parameters() {
    assert_eq!(
        parse_params("version=0.1.0&format=json\r\n"),
        params(&[("version", "0.1.0"), ("format", "json")])
    );
    // A piece without an equals sign carries no pair; a value keeps any
    // equals sign after the first one.
    assert_eq!(
        parse_params("noise&key=a=b&"),
        params(&[("key", "a=b")])
    );
    assert_eq!(parse_params(""), params(&[]));
    assert_eq!(parse_params("   \n"), params(&[]));
}

#[test]
fn handshake_admits_a_parsed_upgrade_line() {
    let configuration = negotiate(&parse_params("version=0.1.4&format=Binary\n")).unwrap();
    assert_eq!(configuration.format, Format::Binary);
}

#[test]
fn handshake_rejects_missing_parameters() {
    let r = negotiate(&params(&[("version", "0.1.0")]));
    assert_eq!(
        r.unwrap_err(),
        HandshakeError::MissingParameter("format".to_owned())
    );
    let r = negotiate(&params(&[("format", "json")]));
    assert_eq!(
        r.unwrap_err(),
        HandshakeError::MissingParameter("version".to_owned())
    );
}

#[test]
fn handshake_rejects_bad_values() {
    let r = negotiate(&params(&[("version", "0.1"), ("format", "json")]));
    assert_eq!(r.unwrap_err(), HandshakeError::MalformedVersion);
    let r = negotiate(&params(&[("version", "0.1.0"), ("format", "xml")]));
    assert_eq!(r.unwrap_err(), HandshakeError::UnknownFormat);
}

#[test]
fn handshake_rejects_incompatible_versions() {
    let r = negotiate(&params(&[("version", "1.0.0"), ("format", "json")]));
    assert_eq!(r.unwrap_err(), HandshakeError::IncompatibleVersion);
    let r = negotiate(&params(&[("version", "0.2.0"), ("format", "json")]));
    assert_eq!(r.unwrap_err(), HandshakeError::IncompatibleVersion);
}

#[test]
fn handshake_admits_a_valid_connection() {
    let configuration = negotiate(&params(&[("version", "0.1.9-beta"), ("format", "json")]))
        .unwrap();
    assert_eq!(configuration.format, Format::Json);
    let configuration = negotiate(&params(&[("version", "0.1.0"), ("format", "BINARY")]))
        .unwrap();
    assert_eq!(configuration.format, Format::Binary);
}
