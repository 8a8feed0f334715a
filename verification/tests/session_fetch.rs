use coreos_metadata::decode::{Decoded, Format};
use coreos_metadata::error::{Cause, FetchError};
use coreos_metadata::metadata::Metadata;
use coreos_metadata::providers::ec2;
use coreos_metadata::providers::{Field, KeyPlan, Plan, Session, Source, Turn};
use coreos_metadata::retry::{Client, Reply};

const BASE: &str = "http://169.254.169.254/2009-04-04/";

fn ok(body: &str) -> Reply {
    Reply::Status { code: 200, body: body.as_bytes().to_vec() }
}

fn not_found() -> Reply {
    Reply::Status { code: 404, body: b"Not Found".to_vec() }
}

/// Carries the fetch to its end. Each GET is answered by `serve`, which is
/// given the address and the number of the attempt at it, from 1.
fn drive<F: FnMut(&str, u32) -> Reply>(
    first: Turn,
    mut serve: F,
) -> (Result<Metadata, FetchError>, Vec<(String, u64)>) {
    let mut asked: Vec<(String, u64)> = Vec::new();
    let mut turn = first;
    loop {
        match turn {
            Turn::Done(result) => return (result, asked),
            Turn::Ask { wait_ms, session } => {
                let url = session.url().to_string();
                let attempt = 1 + asked.iter().filter(|(u, _)| *u == url).count() as u32;
                asked.push((url.clone(), wait_ms));
                turn = session.receive(serve(&url, attempt));
            }
        }
    }
}

fn urls(asked: &[(String, u64)]) -> Vec<String> {
    asked.iter().map(|(u, _)| u.clone()).collect()
}

fn pairs(list: &[(&str, &str)]) -> Vec<(String, String)> {
    list.iter().map(|(k, v)| (k.to_string(), v.to_string())).collect()
}

fn text_field(attribute: &str, path: &str) -> Field {
    Field {
        attribute: attribute.to_string(),
        path: path.to_string(),
        source: Source::Text,
        hostname: false,
    }
}

/// A plan in the style of EC2, with plain attribute names.
fn ec2_style_plan() -> Plan {
    Plan {
        base: BASE.to_string(),
        fields: vec![
            text_field("INSTANCE_ID", "meta-data/instance-id"),
            text_field("IPV4_PUBLIC", "meta-data/public-ipv4"),
            text_field("IPV4_LOCAL", "meta-data/local-ipv4"),
            Field {
                attribute: "HOSTNAME".to_string(),
                path: "meta-data/hostname".to_string(),
                source: Source::Text,
                hostname: true,
            },
            text_field("AVAILABILITY_ZONE", "meta-data/placement/availability-zone"),
            Field {
                attribute: "REGION".to_string(),
                path: "dynamic/instance-identity/document".to_string(),
                source: Source::JsonMember("region".to_string()),
                hostname: false,
            },
        ],
        keys: Some(KeyPlan {
            listing: "meta-data/public-keys".to_string(),
            material_prefix: "meta-data/public-keys/".to_string(),
            material_suffix: "/openssh-key".to_string(),
        }),
    }
}

fn keys_only_plan() -> Plan {
    Plan {
        base: BASE.to_string(),
        fields: Vec::new(),
        keys: Some(KeyPlan {
            listing: "meta-data/public-keys".to_string(),
            material_prefix: "meta-data/public-keys/".to_string(),
            material_suffix: "/openssh-key".to_string(),
        }),
    }
}

fn lenient() -> Client {
    Client::new().return_on_404(true)
}

#[test]
fn ec2_style_end_to_end() {
    let (result, asked) = drive(Session::start(lenient(), ec2_style_plan()), |url, _| {
        if url == "http://169.254.169.254/2009-04-04/meta-data/instance-id" {
            ok("i-1234")
        } else if url == "http://169.254.169.254/2009-04-04/dynamic/instance-identity/document" {
            ok("{\"region\":\"us-east-1\"}")
        } else {
            not_found()
        }
    });
    let metadata = result.unwrap();
    assert_eq!(
        metadata.attributes(),
        &pairs(&[("INSTANCE_ID", "i-1234"), ("REGION", "us-east-1")])
    );
    assert_eq!(metadata.hostname(), &None);
    assert!(metadata.ssh_keys().is_empty());
    assert!(metadata.network_devices().is_empty());
    assert_eq!(asked.len(), 7);
    assert!(asked.iter().all(|(_, wait)| *wait == 0));
}

#[test]
fn ec2_end_to_end() {
    let (result, asked) = drive(ec2::fetch_metadata(), |url, _| {
        if url == "http://169.254.169.254/2009-04-04/meta-data/instance-id" {
            ok("i-1234")
        } else if url == "http://169.254.169.254/2009-04-04/dynamic/instance-identity/document" {
            ok("{\"region\":\"us-east-1\"}")
        } else {
            not_found()
        }
    });
    let metadata = result.unwrap();
    assert_eq!(
        metadata.attributes(),
        &pairs(&[("EC2_INSTANCE_ID", "i-1234"), ("EC2_REGION", "us-east-1")])
    );
    assert_eq!(metadata.attribute("EC2_INSTANCE_ID"), Some("i-1234".to_string()));
    assert_eq!(metadata.attribute("EC2_REGION"), Some("us-east-1".to_string()));
    assert_eq!(metadata.attribute("EC2_HOSTNAME"), None);
    assert_eq!(metadata.hostname(), &None);
    assert!(metadata.ssh_keys().is_empty());
    assert_eq!(
        urls(&asked),
        vec![
            "http://169.254.169.254/2009-04-04/meta-data/instance-id",
            "http://169.254.169.254/2009-04-04/meta-data/public-ipv4",
            "http://169.254.169.254/2009-04-04/meta-data/local-ipv4",
            "http://169.254.169.254/2009-04-04/meta-data/hostname",
            "http://169.254.169.254/2009-04-04/meta-data/placement/availability-zone",
            "http://169.254.169.254/2009-04-04/dynamic/instance-identity/document",
            "http://169.254.169.254/2009-04-04/meta-data/public-keys",
        ]
    );
}

#[test]
fn ec2_with_everything_present() {
    let (result, asked) = drive(ec2::fetch_metadata(), |url, _| {
        let path = &url[BASE.len()..];
        match path {
            "meta-data/instance-id" => ok("i-0abc\n"),
            "meta-data/public-ipv4" => ok("203.0.113.7"),
            "meta-data/local-ipv4" => ok("10.0.0.7"),
            "meta-data/hostname" => ok("ip-10-0-0-7.ec2.internal"),
            "meta-data/placement/availability-zone" => ok("us-west-2b"),
            "dynamic/instance-identity/document" => {
                ok("{\"accountId\":\"1\",\"region\":\"us-west-2\",\"pendingTime\":null}")
            }
            "meta-data/public-keys" => ok("0=my-key\n1=other-key\n"),
            "meta-data/public-keys/0/openssh-key" => ok("ssh-rsa AAAA0 my-key\n"),
            "meta-data/public-keys/1/openssh-key" => ok("ssh-ed25519 AAAA1 other-key\n"),
            other => panic!("unexpected path {}", other),
        }
    });
    let metadata = result.unwrap();
    assert_eq!(
        metadata.attributes(),
        &pairs(&[
            ("EC2_INSTANCE_ID", "i-0abc"),
            ("EC2_IPV4_PUBLIC", "203.0.113.7"),
            ("EC2_IPV4_LOCAL", "10.0.0.7"),
            ("EC2_HOSTNAME", "ip-10-0-0-7.ec2.internal"),
            ("EC2_AVAILABILITY_ZONE", "us-west-2b"),
            ("EC2_REGION", "us-west-2"),
        ])
    );
    assert_eq!(metadata.hostname(), &Some("ip-10-0-0-7.ec2.internal".to_string()));
    assert_eq!(
        metadata.ssh_keys(),
        &vec!["ssh-rsa AAAA0 my-key".to_string(), "ssh-ed25519 AAAA1 other-key".to_string()]
    );
    assert_eq!(asked.len(), 9);
}

#[test]
fn ec2_starts_with_the_instance_id_and_no_wait() {
    match ec2::fetch_metadata() {
        Turn::Ask { wait_ms, session } => {
            assert_eq!(wait_ms, 0);
            assert_eq!(session.url(), "http://169.254.169.254/2009-04-04/meta-data/instance-id");
        }
        Turn::Done(r) => panic!("ended at once with {:?}", r),
    }
}

#[test]
fn ec2_plan_is_the_plan_of_its_session() {
    assert_eq!(ec2::fetch_metadata(), Session::start(lenient(), ec2::plan()));
    assert_eq!(ec2::plan().fields.len(), 6);
    assert_eq!(ec2::plan().base, ec2::url_for_key(""));
}

#[test]
fn url_for_key_appends_to_the_base() {
    assert_eq!(
        ec2::url_for_key("meta-data/instance-id"),
        "http://169.254.169.254/2009-04-04/meta-data/instance-id"
    );
    assert_eq!(ec2::url_for_key(""), "http://169.254.169.254/2009-04-04/");
}

#[test]
fn ssh_keys_come_in_listing_order() {
    let (result, asked) = drive(Session::start(lenient(), keys_only_plan()), |url, _| {
        match &url[BASE.len()..] {
            "meta-data/public-keys" => ok("0=keyA 1=keyB"),
            "meta-data/public-keys/0/openssh-key" => ok("material of keyA"),
            "meta-data/public-keys/1/openssh-key" => ok("material of keyB"),
            other => panic!("unexpected path {}", other),
        }
    });
    let metadata = result.unwrap();
    assert_eq!(
        metadata.ssh_keys(),
        &vec!["material of keyA".to_string(), "material of keyB".to_string()]
    );
    assert_eq!(
        urls(&asked),
        vec![
            "http://169.254.169.254/2009-04-04/meta-data/public-keys",
            "http://169.254.169.254/2009-04-04/meta-data/public-keys/0/openssh-key",
            "http://169.254.169.254/2009-04-04/meta-data/public-keys/1/openssh-key",
        ]
    );
}

#[test]
fn malformed_listing_aborts_the_fetch() {
    let (result, asked) = drive(Session::start(lenient(), keys_only_plan()), |url, _| {
        match &url[BASE.len()..] {
            "meta-data/public-keys" => ok("badtoken"),
            other => panic!("unexpected path {}", other),
        }
    });
    assert_eq!(result, Err(FetchError::MalformedKeyListing));
    assert_eq!(asked.len(), 1);
}

#[test]
fn malformed_listing_aborts_the_ec2_fetch_after_its_fields() {
    let (result, _) = drive(ec2::fetch_metadata(), |url, _| match &url[BASE.len()..] {
        "meta-data/instance-id" => ok("i-1234"),
        "meta-data/public-keys" => ok("badtoken"),
        _ => not_found(),
    });
    assert_eq!(result, Err(FetchError::MalformedKeyListing));
}

#[test]
fn one_malformed_entry_spoils_the_listing() {
    for listing in ["0=keyA 1", "0=keyA 1=key=B", "0=keyA\n=\n1==", "x 0=a"] {
        let (result, asked) =
            drive(Session::start(lenient(), keys_only_plan()), |_, _| ok(listing));
        assert_eq!(result, Err(FetchError::MalformedKeyListing), "listing {:?}", listing);
        assert_eq!(asked.len(), 1);
    }
}

#[test]
fn missing_key_material_aborts_the_fetch() {
    let (result, asked) = drive(Session::start(lenient(), keys_only_plan()), |url, _| {
        match &url[BASE.len()..] {
            "meta-data/public-keys" => ok("0=keyA 1=keyB 2=keyC"),
            "meta-data/public-keys/0/openssh-key" => ok("material of keyA"),
            _ => not_found(),
        }
    });
    assert_eq!(result, Err(FetchError::MissingKeyMaterial));
    assert_eq!(asked.len(), 3);
}

#[test]
fn absent_listing_is_no_keys_and_no_error() {
    let (result, asked) =
        drive(Session::start(lenient(), keys_only_plan()), |_, _| not_found());
    let metadata = result.unwrap();
    assert!(metadata.ssh_keys().is_empty());
    assert!(metadata.attributes().is_empty());
    assert_eq!(asked.len(), 1);
}

#[test]
fn empty_listing_is_no_keys() {
    for listing in ["", "  \n"] {
        let (result, asked) =
            drive(Session::start(lenient(), keys_only_plan()), |_, _| ok(listing));
        assert!(result.unwrap().ssh_keys().is_empty());
        assert_eq!(asked.len(), 1);
    }
}

#[test]
fn entry_with_empty_parts_is_well_formed() {
    let (result, asked) = drive(Session::start(lenient(), keys_only_plan()), |url, _| {
        match &url[BASE.len()..] {
            "meta-data/public-keys" => ok("="),
            "meta-data/public-keys//openssh-key" => ok("k"),
            other => panic!("unexpected path {}", other),
        }
    });
    assert_eq!(result.unwrap().ssh_keys(), &vec!["k".to_string()]);
    assert_eq!(asked.len(), 2);
}

#[test]
fn plan_that_names_nothing_ends_at_once() {
    let plan = Plan { base: BASE.to_string(), fields: Vec::new(), keys: None };
    match Session::start(lenient(), plan) {
        Turn::Done(Ok(metadata)) => {
            assert_eq!(metadata, Metadata::builder().build());
        }
        other => panic!("{:?}", other),
    }
}

#[test]
fn plan_without_keys_ends_after_its_fields() {
    let plan = Plan {
        base: "http://metadata/".to_string(),
        fields: vec![text_field("A", "a"), text_field("B", "b")],
        keys: None,
    };
    let (result, asked) = drive(Session::start(lenient(), plan), |url, _| {
        if url == "http://metadata/a" {
            ok("1")
        } else {
            ok("2")
        }
    });
    assert_eq!(result.unwrap().attributes(), &pairs(&[("A", "1"), ("B", "2")]));
    assert_eq!(urls(&asked), vec!["http://metadata/a", "http://metadata/b"]);
}

#[test]
fn present_but_empty_field_is_recorded_as_empty() {
    let plan = Plan {
        base: "http://metadata/".to_string(),
        fields: vec![text_field("A", "a")],
        keys: None,
    };
    let (result, _) = drive(Session::start(lenient(), plan), |_, _| ok(""));
    assert_eq!(result.unwrap().attributes(), &pairs(&[("A", "")]));
}

#[test]
fn later_field_of_the_same_name_overwrites() {
    let plan = Plan {
        base: "http://metadata/".to_string(),
        fields: vec![text_field("A", "first"), text_field("B", "b"), text_field("A", "second")],
        keys: None,
    };
    let (result, _) = drive(Session::start(lenient(), plan), |url, _| {
        ok(&url["http://metadata/".len()..])
    });
    assert_eq!(result.unwrap().attributes(), &pairs(&[("A", "second"), ("B", "b")]));
}

#[test]
fn transient_failure_of_a_field_is_retried_with_backoff() {
    let (result, asked) = drive(ec2::fetch_metadata(), |url, attempt| {
        match (&url[BASE.len()..], attempt) {
            ("meta-data/instance-id", 1) => Reply::Unreachable,
            ("meta-data/instance-id", 2) => Reply::Status { code: 503, body: Vec::new() },
            ("meta-data/instance-id", _) => ok("i-1234"),
            _ => not_found(),
        }
    });
    assert_eq!(result.unwrap().attributes(), &pairs(&[("EC2_INSTANCE_ID", "i-1234")]));
    assert_eq!(asked.len(), 9);
    assert_eq!(asked[0].1, 0);
    assert_eq!(asked[1], (format!("{}meta-data/instance-id", BASE), 1000));
    assert_eq!(asked[2], (format!("{}meta-data/instance-id", BASE), 2000));
    assert_eq!(asked[3], (format!("{}meta-data/public-ipv4", BASE), 0));
}

#[test]
fn field_that_keeps_failing_aborts_the_fetch() {
    let (result, asked) = drive(ec2::fetch_metadata(), |url, _| {
        match &url[BASE.len()..] {
            "meta-data/instance-id" => ok("i-1234"),
            "meta-data/public-ipv4" => Reply::Status { code: 500, body: Vec::new() },
            other => panic!("unexpected path {}", other),
        }
    });
    assert_eq!(result, Err(FetchError::TransportTransient(Cause::Status(500))));
    assert_eq!(asked.len(), 11);
}

#[test]
fn client_error_on_a_field_aborts_the_fetch_at_once() {
    let (result, asked) = drive(ec2::fetch_metadata(), |_, _| {
        Reply::Status { code: 403, body: Vec::new() }
    });
    assert_eq!(result, Err(FetchError::TransportPermanent(403)));
    assert_eq!(asked.len(), 1);
}

#[test]
fn strict_client_takes_404_for_a_failure() {
    let client = Client::new().max_attempts(2);
    let (result, asked) = drive(Session::start(client, keys_only_plan()), |_, _| not_found());
    assert_eq!(result, Err(FetchError::TransportPermanent(404)));
    assert_eq!(asked.len(), 2);
}

#[test]
fn region_document_that_is_no_json_aborts_the_fetch() {
    let (result, asked) = drive(ec2::fetch_metadata(), |url, _| match &url[BASE.len()..] {
        "dynamic/instance-identity/document" => ok("<html>"),
        _ => not_found(),
    });
    assert_eq!(result, Err(FetchError::DecodeFailure));
    assert_eq!(asked.len(), 6);
}

#[test]
fn region_document_without_a_region_aborts_the_fetch() {
    for body in ["{}", "{\"region\":5}", "[\"us-east-1\"]"] {
        let (result, _) = drive(ec2::fetch_metadata(), |url, _| match &url[BASE.len()..] {
            "dynamic/instance-identity/document" => ok(body),
            _ => not_found(),
        });
        assert_eq!(result, Err(FetchError::DecodeFailure), "body {:?}", body);
    }
}

#[test]
fn source_says_its_format_and_reads_its_value() {
    assert_eq!(Source::Text.format(), Format::Raw);
    assert_eq!(Source::JsonMember("region".to_string()).format(), Format::Json);
    assert_eq!(Source::Text.value(None), Ok(None));
    assert_eq!(
        Source::Text.value(Some(Decoded::Text("v".to_string()))),
        Ok(Some("v".to_string()))
    );
    assert_eq!(
        Source::Text.value(Some(Decoded::Xml(b"v".to_vec()))),
        Err(FetchError::DecodeFailure)
    );
    let doc: serde_json::Value = serde_json::from_str("{\"region\":\"eu\"}").unwrap();
    assert_eq!(
        Source::JsonMember("region".to_string()).value(Some(Decoded::Json(doc))),
        Ok(Some("eu".to_string()))
    );
    assert_eq!(Source::JsonMember("region".to_string()).value(None), Ok(None));
}
