use hostwatch::inventory::{
    build_inventory, collect_image_ids, container_info, image_info, ports_summary_exec,
    short_id, split_repo_tag, ContainerRaw, ImageRaw, PortRaw,
};

fn container(names: &[&str], image_id: Option<&str>, ports: Vec<PortRaw>) -> ContainerRaw {
    ContainerRaw {
        names: names.iter().map(|s| s.to_string()).collect(),
        status: Some("Up 3 hours".to_string()),
        state: Some("running".to_string()),
        image_id: image_id.map(|s| s.to_string()),
        ports,
    }
}

fn port(public_port: Option<u16>, private_port: u16, protocol: &str) -> PortRaw {
    PortRaw { public_port, private_port, protocol: protocol.to_string() }
}

#[test]
fn repo_tag_splits_on_first_colon() {
    assert_eq!(split_repo_tag("nginx:latest"), ("nginx".to_string(), "latest".to_string()));
    assert_eq!(split_repo_tag("a:b:c"), ("a".to_string(), "b".to_string()));
}

#[test]
fn repo_without_tag_defaults_to_latest() {
    assert_eq!(split_repo_tag("busybox"), ("busybox".to_string(), "latest".to_string()));
    assert_eq!(split_repo_tag(""), ("".to_string(), "latest".to_string()));
}

#[test]
fn trailing_colon_gives_empty_tag() {
    assert_eq!(split_repo_tag("repo:"), ("repo".to_string(), "".to_string()));
}

#[test]
fn short_id_takes_twelve_after_prefix() {
    assert_eq!(short_id("sha256:abc123def456abc123def456"), "abc123def456");
}

#[test]
fn short_id_of_a_short_identifier_is_placeholder() {
    assert_eq!(short_id("sha256:abc"), "unknown");
    assert_eq!(short_id(""), "unknown");
}

#[test]
fn ports_placeholder_when_none_public() {
    assert_eq!(ports_summary_exec(&Vec::new()), "-");
    assert_eq!(ports_summary_exec(&vec![port(None, 80, "tcp")]), "-");
}

#[test]
fn ports_format_public_private_protocol() {
    assert_eq!(ports_summary_exec(&vec![port(Some(8080), 80, "tcp")]), "8080:80/tcp");
    assert_eq!(
        ports_summary_exec(&vec![
            port(Some(8080), 80, "tcp"),
            port(None, 9000, "tcp"),
            port(Some(5353), 53, "udp"),
        ]),
        "8080:80/tcp, 5353:53/udp"
    );
}

#[test]
fn container_name_joins_and_strips_leading_slash() {
    let c = container(&["/web"], None, Vec::new());
    let row = container_info(c);
    assert_eq!(row.name, "web");
    assert_eq!(row.status, "Up 3 hours");
    assert_eq!(row.state, "running");
    assert_eq!(row.ports, "-");
}

#[test]
fn container_missing_fields_default_to_empty() {
    let c = ContainerRaw {
        names: Vec::new(),
        status: None,
        state: None,
        image_id: None,
        ports: Vec::new(),
    };
    let row = container_info(c);
    assert_eq!(row.name, "");
    assert_eq!(row.status, "");
    assert_eq!(row.state, "");
    assert_eq!(row.ports, "-");
}

#[test]
fn collected_ids_are_the_referenced_ones() {
    let cs = vec![
        container(&["/a"], Some("sha256:aaa"), Vec::new()),
        container(&["/b"], None, Vec::new()),
        container(&["/c"], Some("sha256:ccc"), Vec::new()),
    ];
    let ids = collect_image_ids(&cs);
    assert_eq!(ids, vec!["sha256:aaa".to_string(), "sha256:ccc".to_string()]);
}

#[test]
fn image_in_use_iff_referenced() {
    let used = vec!["sha256:abc123def456abc123def456".to_string()];
    let img = ImageRaw {
        repo_tags: vec!["nginx:latest".to_string()],
        id: "sha256:abc123def456abc123def456".to_string(),
        size_bytes: 1_000_000,
    };
    let row = image_info(img, &used);
    assert!(row.in_use);
    assert_eq!(row.repo, "nginx");
    assert_eq!(row.tag, "latest");
    assert_eq!(row.id, "abc123def456");
    assert_eq!(row.size_bytes, 1_000_000);

    let other = ImageRaw {
        repo_tags: Vec::new(),
        id: "sha256:000111222333000111222333".to_string(),
        size_bytes: 5,
    };
    let other_row = image_info(other, &used);
    assert!(!other_row.in_use);
    assert_eq!(other_row.repo, "none");
    assert_eq!(other_row.tag, "none");
}

#[test]
fn inventory_scenario_web_container_and_nginx_image() {
    let id = "sha256:abc123def456abc123def456";
    let cs = vec![container(&["/web"], Some(id), Vec::new())];
    let imgs = vec![ImageRaw {
        repo_tags: vec!["nginx:latest".to_string()],
        id: id.to_string(),
        size_bytes: 50_000_000,
    }];
    let (rows, img_rows) = build_inventory(cs, imgs);
    assert_eq!(rows.len(), 1);
    assert_eq!(rows[0].name, "web");
    assert_eq!(img_rows.len(), 1);
    assert_eq!(img_rows[0].repo, "nginx");
    assert_eq!(img_rows[0].tag, "latest");
    assert!(img_rows[0].in_use);
}

#[test]
fn inventory_unreferenced_image_is_not_in_use() {
    let cs = vec![container(&["/web"], Some("sha256:abc123def456abc123def456"), Vec::new())];
    let imgs = vec![ImageRaw {
        repo_tags: vec!["redis:7".to_string()],
        id: "sha256:999888777666999888777666".to_string(),
        size_bytes: 1,
    }];
    let (_, img_rows) = build_inventory(cs, imgs);
    assert!(!img_rows[0].in_use);
}
