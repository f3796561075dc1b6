use sonor::services::{music_services_from_response, parse_number_list};
use sonor::{ActionRequest, ActionResponse, DecodeError, Service, ValueKind};

fn response(pairs: &[(&str, &str)]) -> ActionResponse {
    ActionResponse {
        entries: pairs.iter().map(|(k, v)| (k.to_string(), v.to_string())).collect(),
    }
}

const DESCRIPTORS: &str = r#"<Services><Service Id="9" Name="Spotify" Capabilities="2563" Version=""/><Service Id="254" Name="TuneIn" Capabilities="1"/></Services>"#;

#[test]
fn number_lists_split_on_commas() {
    assert_eq!(parse_number_list("1,2,30"), Some(vec![1, 2, 30]));
    assert_eq!(parse_number_list("7"), Some(vec![7]));
    assert_eq!(parse_number_list(""), None);
    assert_eq!(parse_number_list("1,,2"), None);
    assert_eq!(parse_number_list("1,x"), None);
    assert_eq!(parse_number_list("4294967296"), None);
}

#[test]
fn music_services_decode() {
    let r = response(&[
        ("AvailableServiceDescriptorList", DESCRIPTORS),
        ("AvailableServiceTypeList", "2311,65031"),
    ]);
    let (available, services) = music_services_from_response(&r).unwrap();
    assert_eq!(available, vec![2311, 65031]);
    assert_eq!(services.len(), 2);
    assert_eq!(services[0], ("spotify".to_string(), (9, 2563, 9 << 15)));
    assert_eq!(services[1], ("tunein".to_string(), (254, 1, 254 << 15)));
}

#[test]
fn service_type_keeps_the_low_32_bits() {
    let doc = r#"<Services><Service Id="4294967295" Name="Big" Capabilities="0"/></Services>"#;
    let r = response(&[("AvailableServiceDescriptorList", doc), ("AvailableServiceTypeList", "1")]);
    let (_, services) = music_services_from_response(&r).unwrap();
    assert_eq!(services[0].1, (u32::MAX, 0, u32::MAX << 15));
}

#[test]
fn music_service_errors() {
    let r = response(&[("AvailableServiceTypeList", "1")]);
    assert!(matches!(music_services_from_response(&r), Err(DecodeError::MissingElement(_, e)) if e == "AvailableServiceDescriptorList"));
    let r = response(&[("AvailableServiceDescriptorList", DESCRIPTORS), ("AvailableServiceTypeList", "a")]);
    assert!(matches!(music_services_from_response(&r), Err(DecodeError::InvalidValue(ValueKind::Integer))));
    let doc = r#"<Services><Service Name="x" Capabilities="1"/></Services>"#;
    let r = response(&[("AvailableServiceDescriptorList", doc), ("AvailableServiceTypeList", "1")]);
    match music_services_from_response(&r) {
        Err(DecodeError::MissingElement(context, element)) => {
            assert_eq!(context, "Service");
            assert_eq!(element, "Id");
        }
        other => panic!("{:?}", other),
    }
    let r = response(&[("AvailableServiceDescriptorList", "<Other/>"), ("AvailableServiceTypeList", "1")]);
    assert!(matches!(music_services_from_response(&r), Err(DecodeError::MissingElement(c, _)) if c == "DescriptorList"));
}

#[test]
fn music_services_request() {
    let r = ActionRequest::list_available_services();
    assert_eq!(r.service, Service::MusicServices);
    assert_eq!(r.action, "ListAvailableServices");
    assert_eq!(r.payload, "");
}
