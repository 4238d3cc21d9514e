use nano_rust::das::dasgoclient::{DasgoClientResolver, ListingOutcome};
use nano_rust::das::fixture::FixtureResolver;
use nano_rust::das::model::{validate_dataset_name, DatasetRequest, DasInstance};
use nano_rust::das::resolver::DatasetResolver;
use nano_rust::{CmsFile, DasError, DatasetManifest, FileSource, SourcePolicy};

fn request(dataset: &str, max_files: Option<usize>) -> DatasetRequest {
    DatasetRequest {
        dataset: dataset.to_string(),
        instance: DasInstance::ProdGlobal,
        max_files,
        run_range: None,
        require_valid: true,
    }
}

fn fixture(lfns: &[&str]) -> FixtureResolver {
    FixtureResolver { lfns: lfns.iter().map(|s| s.to_string()).collect() }
}

#[test]
fn test_valid_dataset_names() {
    assert!(validate_dataset_name("/Muon0/Run2024C-NanoAODv15-v1/NANOAOD").is_ok());
    assert!(validate_dataset_name("/ScoutingPFRun3/Run2024D-v1/RAW").is_ok());
}

#[test]
fn test_invalid_dataset_names() {
    assert!(validate_dataset_name("").is_err());
    assert!(validate_dataset_name("Muon0/Run2024C/NANOAOD").is_err());
    assert!(validate_dataset_name("/Muon0/Run2024 C/NANOAOD").is_err());
    assert!(validate_dataset_name("/Muon0/Run2024C").is_err());
    assert!(validate_dataset_name("/Muon0/Run2024C/NANOAOD/EXTRA").is_err());
}

#[test]
fn test_source_policy() {
    let policy = SourcePolicy::GlobalXrootd;
    assert_eq!(
        policy.normalize_lfn("/store/data/test.root"),
        "root://cms-xrd-global.cern.ch//store/data/test.root"
    );
}

#[test]
fn test_fixture_resolver() {
    let resolver = fixture(&["/store/data/1.root", "/store/data/2.root"]);
    let req = request("/Test/Dataset/NANOAOD", None);
    let manifest = resolver.resolve(&req).unwrap();
    assert_eq!(manifest.files.len(), 2);
    assert_eq!(
        manifest.files[0].source.global_xrootd_url,
        "root://cms-xrd-global.cern.ch//store/data/1.root"
    );
}

#[test]
fn test_fixture_resolver_max_files() {
    let resolver = fixture(&["/store/data/1.root", "/store/data/2.root", "/store/data/3.root"]);
    let req = request("/Test/Dataset/NANOAOD", Some(2));
    let manifest = resolver.resolve(&req).unwrap();
    assert_eq!(manifest.files.len(), 2);
    assert_eq!(manifest.files[1].lfn, "/store/data/2.root");
}

#[test]
fn test_manifest_duplicate_rejection() {
    let resolver = fixture(&["/store/data/1.root", "/store/data/1.root"]);
    let req = request("/Test/Dataset/NANOAOD", None);
    assert!(resolver.resolve(&req).is_err());
}

#[test]
fn dataset_name_errors_give_their_reason() {
    let reason = |name: &str| match validate_dataset_name(name) {
        Err(DasError::InvalidDatasetName { dataset, reason }) => {
            assert_eq!(dataset, name);
            reason
        }
        other => panic!("unexpected result {:?}", other),
    };
    assert_eq!(reason(""), "empty string");
    assert_eq!(reason("Muon0/Run2024C/NANOAOD"), "missing leading slash");
    assert_eq!(reason("/Muon0/Run2024 C/NANOAOD"), "contains whitespace");
    assert_eq!(reason("/Muon0/Run2024\tC/NANOAOD"), "contains whitespace");
    assert_eq!(
        reason("/Muon0/Run2024C"),
        "wrong number of path components, expected /PrimaryDataset/ProcessedDataset/DataTier"
    );
    assert_eq!(
        reason("/A/B/C/"),
        "wrong number of path components, expected /PrimaryDataset/ProcessedDataset/DataTier"
    );
}

#[test]
fn dataset_name_with_empty_components_is_accepted() {
    assert!(validate_dataset_name("///").is_ok());
    assert!(validate_dataset_name("/A//C").is_ok());
}

#[test]
fn every_policy_appends_the_lfn() {
    let lfn = "/store/x.root";
    assert_eq!(SourcePolicy::LogicalOnly.normalize_lfn(lfn), "/store/x.root");
    assert_eq!(
        SourcePolicy::SiteXrootd { redirector: "eos.cern.ch".to_string() }.normalize_lfn(lfn),
        "root://eos.cern.ch//store/x.root"
    );
    assert_eq!(
        SourcePolicy::HttpFromTemplate { base_url: "https://h/files".to_string() }.normalize_lfn(lfn),
        "https://h/files/store/x.root"
    );
    let a = SourcePolicy::GlobalXrootd.normalize_lfn("/store/a.root");
    let b = SourcePolicy::GlobalXrootd.normalize_lfn("/store/b.root");
    assert_ne!(a, b);
    assert!(a.ends_with("/store/a.root"));
}

#[test]
fn fixture_rejects_bad_name_before_files() {
    let resolver = fixture(&["bad"]);
    let req = request("no-slash", None);
    match resolver.resolve(&req) {
        Err(DasError::InvalidDatasetName { reason, .. }) => assert_eq!(reason, "missing leading slash"),
        other => panic!("unexpected {:?}", other),
    }
}

#[test]
fn fixture_reports_first_unprefixed_file() {
    let resolver = fixture(&["/store/a.root", "/other/b.root", "/store/a.root"]);
    let req = request("/Test/Dataset/NANOAOD", None);
    match resolver.resolve(&req) {
        Err(DasError::ParseError { line, reason }) => {
            assert_eq!(line, "/other/b.root");
            assert_eq!(reason, "LFN must start with /store/");
        }
        other => panic!("unexpected {:?}", other),
    }
}

#[test]
fn fixture_duplicate_is_reported_by_name() {
    let resolver = fixture(&["/store/a.root", "/store/b.root", "/store/a.root"]);
    let req = request("/Test/Dataset/NANOAOD", None);
    match resolver.resolve(&req) {
        Err(DasError::DuplicateFile { lfn }) => assert_eq!(lfn, "/store/a.root"),
        other => panic!("unexpected {:?}", other),
    }
    let only_first_two = resolver.resolve(&request("/Test/Dataset/NANOAOD", Some(2))).unwrap();
    assert_eq!(only_first_two.files.len(), 2);
}

#[test]
fn fixture_manifest_records_provenance() {
    let resolver = fixture(&["/store/data/1.root"]);
    let manifest = resolver.resolve(&request("/Test/Dataset/NANOAOD", None)).unwrap();
    assert_eq!(manifest.schema_version, 1);
    assert_eq!(manifest.dataset, "/Test/Dataset/NANOAOD");
    assert_eq!(manifest.instance, DasInstance::ProdGlobal);
    assert_eq!(manifest.provenance.resolver, "FixtureResolver");
    assert_eq!(manifest.provenance.query, "fixture");
    assert_eq!(manifest.provenance.resolved_at_utc, "1970-01-01T00:00:00Z");
    assert_eq!(manifest.provenance.nano_das_version, "0.1.0");
    let file = &manifest.files[0];
    assert_eq!(file.source.lfn, "/store/data/1.root");
    assert!(file.source.preferred_url.is_none());
    assert!(file.runs.is_empty());
    assert!(manifest.validate().is_ok());
}

fn manifest_with(version: u32, dataset: &str, lfns: &[&str]) -> DatasetManifest {
    let mut m = fixture(&["/store/x.root"]).resolve(&request("/A/B/C", None)).unwrap();
    m.schema_version = version;
    m.dataset = dataset.to_string();
    m.files = lfns
        .iter()
        .map(|l| CmsFile {
            lfn: l.to_string(),
            source: FileSource {
                lfn: l.to_string(),
                global_xrootd_url: String::new(),
                preferred_url: None,
                local_path: None,
            },
            events: None,
            size_bytes: None,
            checksum: None,
            runs: vec![],
            lumis: vec![],
        })
        .collect();
    m
}

#[test]
fn manifest_validation_order() {
    match manifest_with(2, "bad", &["x"]).validate() {
        Err(DasError::ManifestSchemaUnsupported { found, supported }) => {
            assert_eq!(found, 2);
            assert_eq!(supported, vec![1]);
        }
        other => panic!("unexpected {:?}", other),
    }
    assert!(matches!(
        manifest_with(1, "bad", &["x"]).validate(),
        Err(DasError::InvalidDatasetName { .. })
    ));
    assert!(matches!(
        manifest_with(1, "/A/B/C", &["/store/a", "x"]).validate(),
        Err(DasError::ParseError { .. })
    ));
    assert!(manifest_with(1, "/A/B/C", &[]).validate().is_ok());
}

#[test]
fn dasgoclient_query_names_dataset_and_instance() {
    let resolver = DasgoClientResolver;
    let q = resolver.query_for(&request("/Muon0/Run2024C/NANOAOD", None)).unwrap();
    assert_eq!(q, "file dataset=/Muon0/Run2024C/NANOAOD instance=prod/global");
    let mut custom = request("not a name", None);
    custom.require_valid = false;
    custom.instance = DasInstance::Custom("prod/phys01".to_string());
    assert_eq!(resolver.query_for(&custom).unwrap(), "file dataset=not a name instance=prod/phys01");
    custom.require_valid = true;
    assert!(matches!(resolver.query_for(&custom), Err(DasError::InvalidDatasetName { .. })));
}

#[test]
fn dasgoclient_listing_is_trimmed_limited_and_checked() {
    let resolver = DasgoClientResolver;
    let req = request("/A/B/C", Some(2));
    let out = resolver
        .manifest_from_listing(
            &req,
            "q".to_string(),
            "  /store/1.root \n\n\t/store/2.root\n/store/3.root\n",
            "now".to_string(),
        )
        .unwrap();
    assert_eq!(out.files.len(), 2);
    assert_eq!(out.files[0].lfn, "/store/1.root");
    assert_eq!(out.files[1].lfn, "/store/2.root");
    assert_eq!(out.provenance.resolver, "DasgoClientResolver");
    assert_eq!(out.provenance.query, "q");
    assert_eq!(out.provenance.resolved_at_utc, "now");

    let zero = resolver
        .manifest_from_listing(&request("/A/B/C", Some(0)), "q".to_string(), "/store/1.root\n/store/2.root", "t".to_string())
        .unwrap();
    assert_eq!(zero.files.len(), 1);

    match resolver.manifest_from_listing(&request("/A/B/C", None), "q".to_string(), "/store/1.root\nfoo\n", "t".to_string()) {
        Err(DasError::ParseError { line, reason }) => {
            assert_eq!(line, "foo");
            assert_eq!(reason, "LFN must start with /store/");
        }
        other => panic!("unexpected {:?}", other),
    }
    match resolver.manifest_from_listing(&request("/A/B/C", None), "the query".to_string(), " \n\n", "t".to_string()) {
        Err(DasError::EmptyDataset { dataset, query }) => {
            assert_eq!(dataset, "/A/B/C");
            assert_eq!(query, "the query");
        }
        other => panic!("unexpected {:?}", other),
    }
    assert!(matches!(
        resolver.manifest_from_listing(&request("/A/B/C", None), "q".to_string(), "/store/1\n/store/1\n", "t".to_string()),
        Err(DasError::DuplicateFile { .. })
    ));
}

#[test]
fn dasgoclient_outcomes_map_to_errors() {
    let resolver = DasgoClientResolver;
    let req = request("/A/B/C", None);
    assert!(matches!(
        resolver.manifest_from_outcome(&req, "q".to_string(), ListingOutcome::NotFound, "t".to_string()),
        Err(DasError::MissingDasgoClient)
    ));
    match resolver.manifest_from_outcome(
        &req,
        "q".to_string(),
        ListingOutcome::Failed { status: Some(3), stderr: "boom".to_string() },
        "t".to_string(),
    ) {
        Err(DasError::DasgoClientFailed { status, stderr }) => {
            assert_eq!(status, Some(3));
            assert_eq!(stderr, "boom");
        }
        other => panic!("unexpected {:?}", other),
    }
    let io = std::io::Error::new(std::io::ErrorKind::PermissionDenied, "denied");
    assert!(matches!(
        resolver.manifest_from_outcome(&req, "q".to_string(), ListingOutcome::SpawnFailed(io), "t".to_string()),
        Err(DasError::Io(_))
    ));
    let ok = resolver
        .manifest_from_outcome(
            &req,
            "q".to_string(),
            ListingOutcome::Succeeded { stdout: "/store/1.root\n".to_string() },
            "t".to_string(),
        )
        .unwrap();
    assert_eq!(ok.files.len(), 1);
}

#[test]
fn error_messages_match_display() {
    assert_eq!(
        DasError::InvalidDatasetName { dataset: "x".to_string(), reason: "r".to_string() }.message(),
        "invalid dataset name 'x': r"
    );
    assert_eq!(DasError::MissingDasgoClient.message(), "dasgoclient not found");
    assert_eq!(
        DasError::DasgoClientFailed { status: Some(-2), stderr: "e".to_string() }.message(),
        "dasgoclient failed with status Some(-2): e"
    );
    assert_eq!(
        DasError::DasgoClientFailed { status: None, stderr: "e".to_string() }.message(),
        "dasgoclient failed with status None: e"
    );
    assert_eq!(
        DasError::EmptyDataset { dataset: "d".to_string(), query: "q".to_string() }.message(),
        "dataset 'd' is empty (query: q)"
    );
    assert_eq!(
        DasError::ParseError { line: "l".to_string(), reason: "r".to_string() }.message(),
        "parse error on line 'l': r"
    );
    assert_eq!(DasError::DuplicateFile { lfn: "f".to_string() }.message(), "duplicate file in dataset: f");
    assert_eq!(
        DasError::ManifestSchemaUnsupported { found: 7, supported: vec![1, 2] }.message(),
        "unsupported manifest schema 7: supported are [1, 2]"
    );
    let io = DasError::from(std::io::Error::new(std::io::ErrorKind::Other, "disk gone"));
    assert_eq!(io.message(), "I/O error: disk gone");
}

#[test]
fn instance_display_strings() {
    assert_eq!(DasInstance::ProdGlobal.display_string(), "prod/global");
    assert_eq!(DasInstance::ProdPhys03.display_string(), "prod/phys03");
    assert_eq!(DasInstance::Custom("x/y".to_string()).display_string(), "x/y");
}

#[test]
fn dasgoclient_answers_are_stamped_with_the_time_read() {
    let resolver = DasgoClientResolver;
    let req = request("/A/B/C", None);
    let now = chrono::Utc::now().to_rfc3339();
    assert!(matches!(
        resolver.manifest_from_outcome(&req, "q".to_string(), ListingOutcome::NotFound, now.clone()),
        Err(DasError::MissingDasgoClient)
    ));
    let m = resolver
        .manifest_from_outcome(
            &req,
            "q".to_string(),
            ListingOutcome::Succeeded { stdout: "/store/1.root\n".to_string() },
            now.clone(),
        )
        .unwrap();
    assert_eq!(m.provenance.resolved_at_utc, now);
    assert!(now.ends_with("+00:00"), "unexpected stamp {now}");
    assert_eq!(&now[10..11], "T");
}
