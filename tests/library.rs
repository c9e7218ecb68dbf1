use composerize_np::compose::{collect_resources, compose_document, get_service_name};
use composerize_np::doc::Node;
use composerize_np::mappings::{get_mapping, get_mappings, is_boolean_flag, parse_key_value_list, strip_quotes, ArgType, Mapping};
use composerize_np::parser::{classify, normalize_command, parse_docker_command, tokenize};
use composerize_np::builder::{convert_mount_to_tmpfs, convert_mount_to_volume};
use composerize_np::{composerize, composerize_to_json, convert_text, json_to_yaml, yaml_to_json};

fn field<'a>(n: &'a Node, key: &str) -> Option<&'a Node> {
    match n {
        Node::Dict(entries) => entries.iter().find(|(k, _)| k == key).map(|(_, v)| v),
        _ => None,
    }
}

fn keys(n: &Node) -> Vec<String> {
    match n {
        Node::Dict(entries) => entries.iter().map(|(k, _)| k.clone()).collect(),
        _ => Vec::new(),
    }
}

fn text(n: Option<&Node>) -> Option<String> {
    match n {
        Some(Node::Text(s)) => Some(s.clone()),
        _ => None,
    }
}

fn texts(n: Option<&Node>) -> Vec<String> {
    match n {
        Some(Node::List(items)) => items
            .iter()
            .map(|i| match i {
                Node::Text(s) => s.clone(),
                _ => String::from("<not text>"),
            })
            .collect(),
        _ => Vec::new(),
    }
}

fn service<'a>(doc: &'a Node, name: &str) -> &'a Node {
    field(field(doc, "services").unwrap(), name).unwrap()
}

#[test]
fn normalize_joins_continued_lines() {
    let out = normalize_command("  docker run \\\n  -p 80:80 \\\r\n   nginx  ");
    assert_eq!(out, "docker run -p 80:80 nginx");
}

#[test]
fn tokenize_keeps_quotes_and_honours_escapes() {
    let toks = tokenize("a 'b c' \"d\" e\\ f");
    assert_eq!(toks, vec!["a", "'b c'", "\"d\"", "e f"]);
}

#[test]
fn tokenize_unterminated_quote_is_flushed() {
    let toks = tokenize("x 'open quote");
    assert_eq!(toks, vec!["x", "'open quote"]);
}

#[test]
fn tokenize_empty_input() {
    assert!(tokenize("").is_empty());
}

#[test]
fn strip_quotes_cases() {
    assert_eq!(strip_quotes("'abc'"), "abc");
    assert_eq!(strip_quotes(" \"x y\" "), "x y");
    assert_eq!(strip_quotes("plain"), "plain");
    assert_eq!(strip_quotes("'mixed\""), "'mixed\"");
    assert_eq!(strip_quotes("\""), "\"");
}

#[test]
fn boolean_flags_follow_the_table() {
    assert!(is_boolean_flag("privileged"));
    assert!(is_boolean_flag("t"));
    assert!(is_boolean_flag("rm"));
    assert!(!is_boolean_flag("name"));
    assert!(!is_boolean_flag("unknown-flag"));
}

#[test]
fn short_aliases_copy_their_long_form() {
    let v = get_mapping("v").unwrap();
    assert_eq!(v.arg_type, ArgType::Array);
    assert_eq!(v.path, "volumes");
    let ip = get_mapping("ip").unwrap();
    assert_eq!(ip.path, "networks/{network}/ipv4_address");
    assert!(get_mapping("nope").is_none());
    let m = Mapping::new(ArgType::Value, "a/b");
    assert_eq!(m.path, "a/b");
    assert_eq!(m.arg_type, ArgType::Value);
}

#[test]
fn classify_long_short_and_positional() {
    let toks: Vec<String> = vec!["-d", "--name=web", "--restart", "always", "nginx", "echo", "'hi'"]
        .into_iter()
        .map(String::from)
        .collect();
    let (image, command, flags) = classify(&toks).unwrap();
    assert_eq!(image, "nginx");
    assert_eq!(command, vec!["echo", "hi"]);
    let entries: Vec<(String, Vec<String>)> = flags.into_iter().collect();
    assert_eq!(
        entries,
        vec![
            ("d".to_string(), vec!["true".to_string()]),
            ("name".to_string(), vec!["web".to_string()]),
            ("restart".to_string(), vec!["always".to_string()]),
        ]
    );
}

#[test]
fn one_letter_switches_take_no_value() {
    let (image, _, flags) = parse_docker_command("docker run -d nginx").unwrap();
    assert_eq!(image, "nginx");
    assert_eq!(flags.get("d").unwrap(), &vec!["true".to_string()]);
    let a = parse_docker_command("docker run -i -t ubuntu bash").unwrap();
    let b = parse_docker_command("docker run -it ubuntu bash").unwrap();
    assert_eq!(a.0, "ubuntu");
    assert_eq!(a.1, vec!["bash"]);
    assert_eq!(a, b);
    let (_, _, flags) = parse_docker_command("docker run -p 80:80 nginx").unwrap();
    assert_eq!(flags.get("p").unwrap(), &vec!["80:80".to_string()]);
}

#[test]
fn service_name_drops_tag_after_last_colon() {
    assert_eq!(get_service_name("a:b:c"), "a:b");
    assert_eq!(get_service_name("localhost:5000/app"), "app");
    assert_eq!(get_service_name("localhost:5000/app:1.2"), "app");
}

#[test]
fn negative_number_token_is_positional() {
    let (image, _, flags) = parse_docker_command("docker run -1").unwrap();
    assert_eq!(image, "-1");
    assert!(flags.is_empty());
}

#[test]
fn flag_before_flag_is_boolean() {
    let (_, _, flags) = parse_docker_command("docker run --foo --bar x nginx").unwrap();
    assert_eq!(flags.get("foo").unwrap(), &vec!["true".to_string()]);
    assert_eq!(flags.get("bar").unwrap(), &vec!["x".to_string()]);
}

#[test]
fn combined_short_flags_equal_separate_flags() {
    let a = parse_docker_command("docker run -it -p 80:80 nginx").unwrap();
    let b = parse_docker_command("docker run -i -t -p 80:80 nginx").unwrap();
    assert_eq!(a.0, b.0);
    assert_eq!(a.1, b.1);
    assert_eq!(a.2, b.2);
    assert_eq!(a.2.get("i").unwrap(), &vec!["true".to_string()]);
}

#[test]
fn engine_prefixes_are_removed() {
    for cmd in ["podman create nginx", "docker container run nginx", "docker service create nginx", "nginx"] {
        let (image, command, _) = parse_docker_command(cmd).unwrap();
        assert_eq!(image, "nginx");
        assert!(command.is_empty());
    }
}

#[test]
fn missing_image_is_an_error() {
    let r = parse_docker_command("docker run -d");
    assert_eq!(r.unwrap_err(), "No image specified");
    let c = composerize("docker run -d", "", "latest", 2);
    assert!(c.unwrap_err().contains("No image specified"));
}

#[test]
fn unknown_format_is_an_error() {
    let r = composerize("docker run -p 80:80 nginx", "", "bogus", 2);
    assert_eq!(r.unwrap_err(), "Unknown format: bogus");
    assert!(compose_document("docker run nginx", "bogus").is_err());
    assert!(composerize_to_json("docker run nginx", "", "bogus", 2).is_err());
}

#[test]
fn image_alone_gives_only_the_image() {
    let doc = compose_document("docker run nginx", "latest").unwrap();
    assert_eq!(keys(&doc), vec!["services"]);
    let svc = service(&doc, "nginx");
    assert_eq!(keys(svc), vec!["image"]);
    assert_eq!(text(field(svc, "image")), Some("nginx".to_string()));
}

#[test]
fn example_web_service() {
    let doc = compose_document(
        "docker run -d -p 80:80 --name web -e NODE_ENV=production --restart always nginx:alpine",
        "latest",
    )
    .unwrap();
    assert!(field(&doc, "version").is_none());
    assert_eq!(get_service_name("nginx:alpine"), "nginx");
    let svc = service(&doc, "nginx");
    assert_eq!(text(field(svc, "image")), Some("nginx:alpine".to_string()));
    assert_eq!(text(field(svc, "container_name")), Some("web".to_string()));
    assert_eq!(text(field(svc, "restart")), Some("always".to_string()));
    assert_eq!(texts(field(svc, "ports")), vec!["80:80"]);
    assert_eq!(texts(field(svc, "environment")), vec!["NODE_ENV=production"]);
}

#[test]
fn example_healthcheck() {
    let doc = compose_document(
        "docker run --health-cmd 'curl -f http://x' --health-interval 30s nginx",
        "latest",
    )
    .unwrap();
    let hc = field(service(&doc, "nginx"), "healthcheck").unwrap();
    assert_eq!(texts(field(hc, "test")), vec!["CMD-SHELL", "curl -f http://x"]);
    assert_eq!(text(field(hc, "interval")), Some("30s".to_string()));
}

#[test]
fn version_formats() {
    let v2 = compose_document("docker run nginx", "v2x").unwrap();
    assert_eq!(text(field(&v2, "version")), Some("2".to_string()));
    assert_eq!(keys(&v2), vec!["version", "services"]);
    let v3 = compose_document("docker run nginx", "v3x").unwrap();
    assert_eq!(text(field(&v3, "version")), Some("3".to_string()));
}

#[test]
fn exec_command_is_joined() {
    let doc = compose_document("docker run ubuntu sh -c 'echo hi'", "latest").unwrap();
    let svc = service(&doc, "ubuntu");
    assert_eq!(text(field(svc, "command")), Some("sh -c echo hi".to_string()));
}

#[test]
fn mount_bind_readonly_short_form() {
    assert_eq!(convert_mount_to_volume("type=bind,source=/s,target=/d,readonly"), "/s:/d:ro");
    assert_eq!(convert_mount_to_volume("type=volume,source=data,destination=/d"), "data:/d");
    assert_eq!(convert_mount_to_volume("type=bind,target=/d"), "type=bind,target=/d");
    let y = composerize("docker run --mount=type=bind,source=/s,target=/d,readonly nginx", "", "latest", 2).unwrap();
    assert!(y.contains("/s:/d:ro"));
    assert!(!y.contains("type="));
}

#[test]
fn mount_tmpfs_short_form() {
    assert_eq!(
        convert_mount_to_tmpfs("type=tmpfs,destination=/tmp,tmpfs-size=256m,tmpfs-mode=1777"),
        "/tmp:rw,noexec,nosuid,size=256m"
    );
    assert_eq!(convert_mount_to_tmpfs("type=tmpfs,dst=/run"), "/run:rw,noexec,nosuid");
    let doc = compose_document("docker run --mount type=tmpfs,target=/cache nginx", "latest").unwrap();
    assert_eq!(texts(field(service(&doc, "nginx"), "tmpfs")), vec!["/cache:rw,noexec,nosuid"]);
}

#[test]
fn other_mounts_are_kept_verbatim() {
    let doc = compose_document("docker run --mount source=x,target=/y nginx", "latest").unwrap();
    assert_eq!(texts(field(service(&doc, "nginx"), "volumes")), vec!["source=x,target=/y"]);
}

#[test]
fn key_value_list_reads_numbers() {
    let m = parse_key_value_list("a=1, b = x ,c=-5,d,a=2", ',', '=');
    assert_eq!(m.len(), 3);
    assert_eq!(m[0].0, "a");
    assert!(matches!(m[0].1, Node::Int(2)));
    assert_eq!(m[1].0, "b");
    assert!(matches!(&m[1].1, Node::Text(s) if s == "x"));
    assert_eq!(m[2].0, "c");
    assert!(matches!(m[2].1, Node::Int(-5)));
}

#[test]
fn invalid_values_are_errors() {
    let cases = [
        ("docker run --blkio-weight abc nginx", "Invalid integer: abc"),
        ("docker run --cpu-shares 9223372036854775808 nginx", "Invalid integer: 9223372036854775808"),
        ("docker run --cpus fast nginx", "Invalid float: fast"),
        ("docker run --ulimit nofile nginx", "Invalid ulimit format: nofile"),
        ("docker run --ulimit nofile=a:2 nginx", "Invalid soft limit: a"),
        ("docker run --ulimit nofile=1:b nginx", "Invalid hard limit: b"),
        ("docker run --ulimit nproc=lots nginx", "Invalid limit: lots"),
        ("docker run --ulimit n=1:2:3 nginx", "Invalid ulimit format: n=1:2:3"),
        ("docker run --gpus many nginx", "Invalid GPU count: many"),
    ];
    for (cmd, msg) in cases {
        assert_eq!(compose_document(cmd, "latest").unwrap_err(), msg, "{}", cmd);
    }
}

#[test]
fn integers_in_range_are_numbers() {
    let doc = compose_document("docker run --cpu-shares=-9223372036854775808 --health-retries +3 nginx", "latest").unwrap();
    let svc = service(&doc, "nginx");
    assert!(matches!(field(svc, "cpu_shares"), Some(Node::Int(i64::MIN))));
    assert!(matches!(field(field(svc, "healthcheck").unwrap(), "retries"), Some(Node::Int(3))));
}

#[test]
fn ulimits_single_and_pair() {
    let doc = compose_document("docker run --ulimit nofile=1024:2048 --ulimit nproc=512 nginx", "latest").unwrap();
    let ul = field(service(&doc, "nginx"), "ulimits").unwrap();
    let nofile = field(ul, "nofile").unwrap();
    assert!(matches!(field(nofile, "soft"), Some(Node::Int(1024))));
    assert!(matches!(field(nofile, "hard"), Some(Node::Int(2048))));
    assert!(matches!(field(ul, "nproc"), Some(Node::Int(512))));
}

#[test]
fn gpus_replace_deploy_resources() {
    let doc = compose_document("docker run --memory 1g --gpus all nginx", "latest").unwrap();
    let res = field(field(service(&doc, "nginx"), "deploy").unwrap(), "resources").unwrap();
    assert!(field(res, "limits").is_none());
    let devices = field(field(res, "reservations").unwrap(), "devices").unwrap();
    match devices {
        Node::List(items) => {
            assert_eq!(items.len(), 1);
            assert_eq!(text(field(&items[0], "driver")), Some("nvidia".to_string()));
            assert_eq!(text(field(&items[0], "count")), Some("all".to_string()));
            assert_eq!(texts(field(&items[0], "capabilities")), vec!["gpu"]);
        }
        _ => panic!("devices is not a sequence"),
    }
    let two = compose_document("docker run --gpus 2 nginx", "latest").unwrap();
    let y = composerize("docker run --gpus 2 nginx", "", "latest", 2).unwrap();
    assert!(y.contains("count: 2"));
    assert!(field(service(&two, "nginx"), "deploy").is_some());
}

#[test]
fn networks_named_and_modes() {
    let doc = compose_document("docker run --network mynet --ip 10.0.0.2 nginx", "latest").unwrap();
    let svc = service(&doc, "nginx");
    let nets = field(svc, "networks").unwrap();
    assert_eq!(keys(nets), vec!["mynet"]);
    assert_eq!(text(field(field(nets, "mynet").unwrap(), "ipv4_address")), Some("10.0.0.2".to_string()));
    let top = field(&doc, "networks").unwrap();
    assert!(matches!(field(field(top, "mynet").unwrap(), "external"), Some(Node::Bool(true))));

    let host = compose_document("docker run --net host nginx", "latest").unwrap();
    assert_eq!(text(field(service(&host, "nginx"), "network_mode")), Some("host".to_string()));
    assert!(field(&host, "networks").is_none());
    let shared = compose_document("docker run --network container:db nginx", "latest").unwrap();
    assert_eq!(text(field(service(&shared, "nginx"), "network_mode")), Some("container:db".to_string()));
}

#[test]
fn env_values_lose_their_quotes() {
    let doc = compose_document("docker run -e A=\"b c\" -e PLAIN nginx", "latest").unwrap();
    assert_eq!(texts(field(service(&doc, "nginx"), "environment")), vec!["A=b c", "PLAIN"]);
}

#[test]
fn device_io_values_are_kept_as_text() {
    let doc = compose_document("docker run --device-read-bps /dev/sda:1mb nginx", "latest").unwrap();
    let blk = field(service(&doc, "nginx"), "blkio_config").unwrap();
    assert_eq!(text(field(blk, "device_read_bps")), Some("/dev/sda:1mb".to_string()));
}

#[test]
fn unknown_and_pathless_flags_leave_no_trace() {
    let doc = compose_document("docker run --rm -d --whatever x nginx", "latest").unwrap();
    assert_eq!(keys(service(&doc, "nginx")), vec!["image"]);
}

#[test]
fn resources_are_collected_once() {
    let (_, _, flags) =
        parse_docker_command("docker run --network a --network a -v data:/d -v /host:/h -v ./rel:/r -v ~/x:/x -v data:/e nginx").unwrap();
    let first = collect_resources(&flags);
    let second = collect_resources(&flags);
    assert_eq!(first, second);
    assert_eq!(first.0, vec!["a"]);
    assert_eq!(first.1, vec!["data"]);
}

#[test]
fn bind_mounts_stay_out_of_volumes_section() {
    let doc = compose_document("docker run -v /a:/b nginx", "latest").unwrap();
    assert!(field(&doc, "volumes").is_none());
    let named = compose_document("docker run -v name:/b nginx", "latest").unwrap();
    let vols = field(&named, "volumes").unwrap();
    assert_eq!(keys(vols), vec!["name"]);
    assert!(matches!(field(vols, "name"), Some(Node::Null)));
}

#[test]
fn yaml_json_round_trip() {
    let yaml = "services:\n  web:\n    image: nginx\n    ports:\n    - 80:80\n    replicas: 2\n";
    let json = yaml_to_json(yaml, false).unwrap();
    let back = json_to_yaml(&json).unwrap();
    let json_again = yaml_to_json(&back, false).unwrap();
    assert_eq!(json, json_again);
    assert_eq!(json, "{\"services\":{\"web\":{\"image\":\"nginx\",\"ports\":[\"80:80\"],\"replicas\":2}}}");
}

#[test]
fn malformed_inputs_fail_to_parse() {
    assert!(json_to_yaml("{not json").unwrap_err().starts_with("Failed to parse JSON: "));
    assert!(yaml_to_json("a: [1, 2", true).unwrap_err().starts_with("Failed to parse YAML: "));
}

#[test]
fn convert_text_dispatches_on_extension() {
    assert_eq!(convert_text("a: 1\n", "yml", "json").unwrap(), "{\n  \"a\": 1\n}");
    assert_eq!(convert_text("{\"a\": 1}", "json", "yaml").unwrap(), "a: 1\n");
    assert_eq!(convert_text("x", "txt", "json").unwrap_err(), "Unsupported conversion: txt to json");
}

#[test]
fn float_values_render_as_numbers() {
    let y = composerize("docker run --cpus 0.5 nginx", "", "latest", 2).unwrap();
    assert!(y.contains("cpus: 0.5"));
    let j = composerize_to_json("docker run --cpus 1.5 nginx", "", "latest", 0).unwrap();
    assert!(j.contains("\"cpus\":1.5"));
}

#[test]
fn image_alone_prints_only_the_image() {
    let y = composerize("docker run nginx", "", "latest", 2).unwrap();
    assert_eq!(y, "services:\n  nginx:\n    image: nginx\n");
    let j = composerize_to_json("docker run nginx", "", "latest", 0).unwrap();
    assert_eq!(j, "{\"services\":{\"nginx\":{\"image\":\"nginx\"}}}");
}

#[test]
fn separate_switches_print_like_combined_ones() {
    let a = composerize("docker run -i -t ubuntu bash", "", "latest", 2).unwrap();
    let b = composerize("docker run -it ubuntu bash", "", "latest", 2).unwrap();
    assert_eq!(a, b);
    assert!(a.contains("command: bash"));
}

#[test]
fn mapping_table_as_data() {
    let table = get_mappings();
    assert_eq!(table.len(), 97);
    let find = |k: &str| table.iter().find(|(n, _)| n == k).map(|(_, m)| (m.arg_type, m.path.clone())).unwrap();
    for (s, l) in [("v", "volume"), ("p", "publish"), ("e", "env"), ("l", "label"), ("h", "hostname"), ("u", "user"),
        ("w", "workdir"), ("c", "cpu-shares"), ("t", "tty"), ("i", "interactive"), ("m", "memory"), ("d", "detached")] {
        assert_eq!(find(s), find(l));
    }
    let empty: Vec<&str> = table.iter().filter(|(_, m)| m.path.is_empty()).map(|(n, _)| n.as_str()).collect();
    assert_eq!(empty, vec!["detached", "rm", "d"]);
    let per_network: Vec<&str> =
        table.iter().filter(|(_, m)| m.path.contains("{network}")).map(|(n, _)| n.as_str()).collect();
    assert_eq!(per_network, vec!["ip6", "ip", "link-local-ip", "network-alias"]);
    assert_eq!(find("publish"), (ArgType::Array, "ports".to_string()));
    assert_eq!(find("mount"), (ArgType::MapArray, "volumes".to_string()));
    assert_eq!(find("cpus"), (ArgType::FloatValue, "deploy/resources/limits/cpus".to_string()));
    assert_eq!(find("gpus"), (ArgType::Gpus, "deploy".to_string()));
    let again = get_mappings();
    assert_eq!(table.len(), again.len());
    for (a, b) in table.iter().zip(again.iter()) {
        assert_eq!(a.0, b.0);
        assert_eq!(a.1.arg_type, b.1.arg_type);
        assert_eq!(a.1.path, b.1.path);
    }
}

#[test]
fn float_values_must_be_finite_decimals() {
    for bad in ["0x10", ".inf", ".nan", "inf", "1e", "-", "."] {
        let cmd = format!("docker run --cpus={} nginx", bad);
        assert_eq!(compose_document(&cmd, "latest").unwrap_err(), format!("Invalid float: {}", bad));
    }
    for good in ["1e2", ".5", "-2.25", "3."] {
        let cmd = format!("docker run --cpus={} nginx", good);
        assert!(compose_document(&cmd, "latest").is_ok(), "{}", good);
    }
}
