use brane_vm::cli::{
    assert_valid_bakery_name, data_mount, docker_command, generate_dockerfile, image_name, is_package_file,
    kind_from_content, kind_from_name, text_contains, uppercase_first_letter, DockerExecutor, ExecuteInfo, PackageKind,
    UtilError,
};

#[test]
fn uppercases_the_first_letter_only() {
    assert_eq!(uppercase_first_letter("hello world"), "Hello world");
    assert_eq!(uppercase_first_letter(""), "");
    assert_eq!(uppercase_first_letter("ßx"), "SSx");
    assert_eq!(uppercase_first_letter("1a"), "1a");
}

#[test]
fn bakery_names_are_letters_digits_and_underscores() {
    assert!(assert_valid_bakery_name("hello_world2").is_ok());
    assert!(assert_valid_bakery_name("héllo").is_ok());
    match assert_valid_bakery_name("hello-world") {
        Err(UtilError::InvalidBakeryName { name }) => assert_eq!(name, "hello-world"),
        other => panic!("unexpected: {:?}", other),
    }
    assert!(assert_valid_bakery_name("a b").is_err());
}

#[test]
fn dockerfile_adds_the_branelet_from_the_url_or_the_build() {
    let d = generate_dockerfile(false, "https://example.org/branelet");
    assert!(d.starts_with("# Generated by Brane\nFROM alpine\n"));
    assert!(d.contains("ADD https://example.org/branelet branelet\n"));
    assert!(d.ends_with("ENTRYPOINT [\"/branelet\"]\n"));
    let d = generate_dockerfile(true, "unused");
    assert!(d.contains("ADD branelet branelet\n"));
    assert!(!d.contains("unused"));
}

#[test]
fn job_command_and_image_names() {
    assert_eq!(
        docker_command("ecu", "f", "{}"),
        vec!["-d", "--application-id", "test", "--location-id", "localhost", "--job-id", "1", "ecu", "f", "e30="]
    );
    assert_eq!(image_name("pkg", "1.0.0"), "pkg:1.0.0");
}

#[test]
fn data_mounts_refuse_colons() {
    assert_eq!(data_mount("/home/data"), Some("/home/data:/data".to_string()));
    assert_eq!(data_mount("C:/data"), None);
}

#[test]
fn executor_parts_are_kept() {
    let e = DockerExecutor::new(None);
    assert!(e.data.is_none());
    let info = ExecuteInfo::new("img".to_string(), None, Some(vec!["/a:/b".to_string()]), None);
    assert_eq!(info.image, "img");
    assert_eq!(info.mounts, Some(vec!["/a:/b".to_string()]));
    assert!(info.command.is_none());
}

#[test]
fn package_kinds_from_names_and_contents() {
    assert_eq!(kind_from_name(Some("Container.YML"), Some("YML")), Some(PackageKind::Ecu));
    assert_eq!(kind_from_name(Some("flow.BK"), Some("BK")), Some(PackageKind::Dsl));
    assert_eq!(kind_from_name(Some("api.yml"), Some("yml")), None);
    assert_eq!(kind_from_name(None, None), None);
    assert_eq!(kind_from_content("cwlVersion: v1.0\nopenapi"), Some(PackageKind::Cwl));
    assert_eq!(kind_from_content("openapi: 3.0.0"), Some(PackageKind::Oas));
    assert_eq!(kind_from_content("name: x"), None);
}

#[test]
fn text_search() {
    assert!(text_contains("hello world", "o w"));
    assert!(text_contains("abc", ""));
    assert!(!text_contains("ab", "abc"));
    assert!(!text_contains("aab", "abb"));
}

#[test]
fn package_files_are_known_by_name() {
    assert_eq!(is_package_file("CONTAINER.yaml"), (true, "container.yaml".to_string()));
    assert!(is_package_file("Workflow.BK").0);
    assert!(is_package_file("tool.cwl").0);
    assert!(!is_package_file("README.md").0);
    assert!(!is_package_file("bk").0);
}
