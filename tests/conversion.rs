use composerize_np::{composerize, composerize_to_json, get_service_name, json_to_yaml, yaml_to_json};

#[test]
fn test_simple_nginx() {
    let result = composerize("docker run nginx", "", "latest", 2);
    assert!(result.is_ok());
    let yaml = result.unwrap();
    assert!(yaml.contains("nginx"));
    assert!(yaml.contains("image: nginx"));
}

#[test]
fn test_with_ports() {
    let result = composerize("docker run -p 80:80 nginx", "", "latest", 2);
    assert!(result.is_ok());
    let yaml = result.unwrap();
    assert!(yaml.contains("ports:"));
    assert!(yaml.contains("80:80"));
}

#[test]
fn test_with_environment() {
    let result = composerize("docker run -e NODE_ENV=production nginx", "", "latest", 2);
    assert!(result.is_ok());
    let yaml = result.unwrap();
    assert!(yaml.contains("environment:"));
    assert!(yaml.contains("NODE_ENV=production"));
}

#[test]
fn test_with_volumes() {
    let result = composerize("docker run -v /data:/app nginx", "", "latest", 2);
    assert!(result.is_ok());
    let yaml = result.unwrap();
    assert!(yaml.contains("volumes:"));
    assert!(yaml.contains("/data:/app"));
}

#[test]
fn test_with_name() {
    let result = composerize("docker run --name my-app nginx", "", "latest", 2);
    assert!(result.is_ok());
    let yaml = result.unwrap();
    assert!(yaml.contains("container_name: my-app"));
}

#[test]
fn test_with_restart() {
    let result = composerize("docker run --restart always nginx", "", "latest", 2);
    assert!(result.is_ok());
    let yaml = result.unwrap();
    assert!(yaml.contains("restart: always"));
}

#[test]
fn test_privileged() {
    let result = composerize("docker run --privileged nginx", "", "latest", 2);
    if let Err(e) = &result {
        println!("Error: {}", e);
    }
    assert!(result.is_ok());
    let yaml = result.unwrap();
    assert!(yaml.contains("privileged: true"));
}

#[test]
fn test_interactive_tty() {
    let result = composerize("docker run -it ubuntu bash", "", "latest", 2);
    assert!(result.is_ok());
    let yaml = result.unwrap();
    assert!(yaml.contains("stdin_open: true"));
    assert!(yaml.contains("tty: true"));
    assert!(yaml.contains("command: bash"));
}

#[test]
fn test_memory_limit() {
    let result = composerize("docker run --memory 512m nginx", "", "latest", 2);
    assert!(result.is_ok());
    let yaml = result.unwrap();
    assert!(yaml.contains("memory: 512m"));
}

#[test]
fn test_cpu_limit() {
    let result = composerize("docker run --cpus 2.5 nginx", "", "latest", 2);
    assert!(result.is_ok());
    let yaml = result.unwrap();
    assert!(yaml.contains("cpus: 2.5"));
}

#[test]
fn test_multiple_ports() {
    let result = composerize("docker run -p 80:80 -p 443:443 nginx", "", "latest", 2);
    assert!(result.is_ok());
    let yaml = result.unwrap();
    assert!(yaml.contains("80:80"));
    assert!(yaml.contains("443:443"));
}

#[test]
fn test_multiple_env_vars() {
    let result = composerize("docker run -e VAR1=value1 -e VAR2=value2 nginx", "", "latest", 2);
    assert!(result.is_ok());
    let yaml = result.unwrap();
    assert!(yaml.contains("VAR1=value1"));
    assert!(yaml.contains("VAR2=value2"));
}

#[test]
fn test_complex_command() {
    let result = composerize(
        "docker run -d -p 8080:80 --name web -e NODE_ENV=production --restart always nginx:alpine",
        "",
        "latest",
        2
    );
    assert!(result.is_ok());
    let yaml = result.unwrap();
    assert!(yaml.contains("8080:80"));
    assert!(yaml.contains("container_name: web"));
    assert!(yaml.contains("NODE_ENV=production"));
    assert!(yaml.contains("restart: always"));
    assert!(yaml.contains("image: nginx:alpine"));
}

#[test]
fn test_version_v2x() {
    let result = composerize("docker run nginx", "", "v2x", 2);
    assert!(result.is_ok());
    let yaml = result.unwrap();
    assert!(yaml.contains("version: '2'") || yaml.contains("version: \"2\""));
}

#[test]
fn test_version_v3x() {
    let result = composerize("docker run nginx", "", "v3x", 2);
    assert!(result.is_ok());
    let yaml = result.unwrap();
    assert!(yaml.contains("version: '3'") || yaml.contains("version: \"3\""));
}

#[test]
fn test_version_latest_no_version() {
    let result = composerize("docker run nginx", "", "latest", 2);
    assert!(result.is_ok());
    let yaml = result.unwrap();
    assert!(!yaml.contains("version:"));
}

#[test]
fn test_get_service_name_simple() {
    assert_eq!(get_service_name("nginx"), "nginx");
}

#[test]
fn test_get_service_name_with_tag() {
    assert_eq!(get_service_name("nginx:alpine"), "nginx");
}

#[test]
fn test_get_service_name_with_registry() {
    assert_eq!(get_service_name("docker.io/library/nginx"), "nginx");
}

#[test]
fn test_get_service_name_with_registry_and_tag() {
    assert_eq!(get_service_name("docker.io/library/nginx:1.21"), "nginx");
}

#[test]
fn test_healthcheck() {
    let result = composerize(
        "docker run --health-cmd 'curl -f http://localhost' --health-interval 30s nginx",
        "",
        "latest",
        2
    );
    assert!(result.is_ok());
    let yaml = result.unwrap();
    assert!(yaml.contains("healthcheck:"));
    assert!(yaml.contains("test:"));
    assert!(yaml.contains("interval: 30s"));
}

#[test]
fn test_labels() {
    let result = composerize("docker run -l app=web -l env=prod nginx", "", "latest", 2);
    assert!(result.is_ok());
    let yaml = result.unwrap();
    assert!(yaml.contains("labels:"));
    assert!(yaml.contains("app=web"));
    assert!(yaml.contains("env=prod"));
}

#[test]
fn test_hostname() {
    let result = composerize("docker run --hostname myhost nginx", "", "latest", 2);
    assert!(result.is_ok());
    let yaml = result.unwrap();
    assert!(yaml.contains("hostname: myhost"));
}

#[test]
fn test_user() {
    let result = composerize("docker run --user 1000:1000 nginx", "", "latest", 2);
    assert!(result.is_ok());
    let yaml = result.unwrap();
    assert!(yaml.contains("user: 1000:1000"));
}

#[test]
fn test_workdir() {
    let result = composerize("docker run --workdir /app nginx", "", "latest", 2);
    assert!(result.is_ok());
    let yaml = result.unwrap();
    assert!(yaml.contains("working_dir: /app"));
}

#[test]
fn test_entrypoint() {
    let result = composerize("docker run --entrypoint /bin/sh nginx", "", "latest", 2);
    assert!(result.is_ok());
    let yaml = result.unwrap();
    assert!(yaml.contains("entrypoint:"));
    assert!(yaml.contains("/bin/sh"));
}

#[test]
fn test_cap_add() {
    let result = composerize("docker run --cap-add NET_ADMIN nginx", "", "latest", 2);
    assert!(result.is_ok());
    let yaml = result.unwrap();
    assert!(yaml.contains("cap_add:"));
    assert!(yaml.contains("NET_ADMIN"));
}

#[test]
fn test_dns() {
    let result = composerize("docker run --dns 8.8.8.8 nginx", "", "latest", 2);
    assert!(result.is_ok());
    let yaml = result.unwrap();
    assert!(yaml.contains("dns:"));
    assert!(yaml.contains("8.8.8.8"));
}

#[test]
fn test_no_image_error() {
    let result = composerize("docker run -d", "", "latest", 2);
    assert!(result.is_err());
    assert!(result.unwrap_err().contains("No image specified"));
}

#[test]
fn test_invalid_format() {
    let result = composerize("docker run nginx", "", "invalid", 2);
    assert!(result.is_err());
    assert!(result.unwrap_err().contains("Unknown format"));
}

#[test]
fn test_composerize_to_json() {
    let result = composerize_to_json("docker run -p 80:80 nginx", "", "latest", 2);
    assert!(result.is_ok());
    let json = result.unwrap();
    assert!(json.contains("\"nginx\""));
    assert!(json.contains("\"80:80\""));
    assert!(json.contains("\"services\""));
}

#[test]
fn test_yaml_to_json() {
    let yaml = r#"
services:
  nginx:
image: nginx
ports:
  - 80:80
"#;
    let result = yaml_to_json(yaml, true);
    assert!(result.is_ok());
    let json = result.unwrap();
    assert!(json.contains("\"nginx\""));
    assert!(json.contains("\"80:80\""));
}

#[test]
fn test_json_to_yaml() {
    let json = r#"{
  "services": {
"nginx": {
  "image": "nginx",
  "ports": ["80:80"]
}
  }
}"#;
    let result = json_to_yaml(json);
    assert!(result.is_ok());
    let yaml = result.unwrap();
    assert!(yaml.contains("nginx"));
    assert!(yaml.contains("80:80"));
}

#[test]
fn test_yaml_to_json_to_yaml() {
    let source_yaml = r#"
services:
  nginx:
image: nginx
ports:
  - 80:80
"#;
    let json = yaml_to_json(source_yaml, false).unwrap();
    let yaml = json_to_yaml(&json).unwrap();
    assert!(yaml.contains("nginx"));
    assert!(yaml.contains("80:80"));
}

#[test]
fn test_json_with_complex_structure() {
    let result = composerize_to_json(
        "docker run -d -p 8080:80 -e NODE_ENV=production --restart always nginx",
        "",
        "v3x",
        2,
    );
    assert!(result.is_ok());
    let json = result.unwrap();
    assert!(json.contains("\"version\""));
    assert!(json.contains("\"3\""));
    assert!(json.contains("\"NODE_ENV=production\""));
    assert!(json.contains("\"restart\""));
    assert!(json.contains("\"always\""));
}

#[test]
fn test_networks_section() {
    let result = composerize("docker run --network ml-net nginx", "", "latest", 2);
    assert!(result.is_ok());
    let yaml = result.unwrap();
    assert!(yaml.contains("networks:"));
    assert!(yaml.contains("ml-net:"));
    assert!(yaml.contains("external: true"));
}

#[test]
fn test_volumes_section() {
    let result = composerize("docker run -v data:/data -v cache:/cache nginx", "", "latest", 2);
    assert!(result.is_ok());
    let yaml = result.unwrap();
    assert!(yaml.contains("volumes:"));
    assert!(yaml.contains("data:"));
    assert!(yaml.contains("cache:"));
}

#[test]
fn test_no_volumes_for_bind_mounts() {
    let result = composerize("docker run -v /host:/container nginx", "", "latest", 2);
    assert!(result.is_ok());
    let yaml = result.unwrap();
    // Should not have volumes section for bind mounts
    let lines: Vec<&str> = yaml.lines().collect();
    let volumes_line = lines.iter().position(|&l| l.starts_with("volumes:"));
    assert!(volumes_line.is_none());
}

#[test]
fn test_mixed_volumes() {
    let result = composerize("docker run -v data:/data -v /host:/host nginx", "", "latest", 2);
    assert!(result.is_ok());
    let yaml = result.unwrap();
    // Should have volumes section only for named volume
    assert!(yaml.contains("volumes:"));
    assert!(yaml.contains("data:"));
    // But service volumes should have both
    assert!(yaml.contains("- data:/data"));
    assert!(yaml.contains("- /host:/host"));
}

#[test]
fn test_default_network_not_in_section() {
    let result = composerize("docker run nginx", "", "latest", 2);
    assert!(result.is_ok());
    let yaml = result.unwrap();
    // Should not have networks section for default network
    let lines: Vec<&str> = yaml.lines().collect();
    let networks_line = lines.iter().position(|&l| l.starts_with("networks:"));
    assert!(networks_line.is_none());
}

#[test]
fn test_full_compose_with_resources() {
    let result = composerize(
        "docker run -d --name ml-service --network ml-net -v ml-models:/models -v ml-cache:/cache nginx",
        "",
        "latest",
        2
    );
    assert!(result.is_ok());
    let yaml = result.unwrap();
    // Check all sections
    assert!(yaml.contains("services:"));
    assert!(yaml.contains("networks:"));
    assert!(yaml.contains("volumes:"));
    assert!(yaml.contains("ml-net:"));
    assert!(yaml.contains("ml-models:"));
    assert!(yaml.contains("ml-cache:"));
}

#[test]
fn test_mount_to_volume_conversion() {
    let result = composerize(
        "docker run --mount=type=bind,source=/host/data,target=/container/data,readonly nginx",
        "",
        "latest",
        2
    );
    assert!(result.is_ok());
    let yaml = result.unwrap();
    // Check that mount is converted to short syntax
    assert!(yaml.contains("/host/data:/container/data:ro"));
    // Should not have raw mount string
    assert!(!yaml.contains("type=bind"));
}

#[test]
fn test_mount_without_readonly() {
    let result = composerize(
        "docker run --mount=type=bind,source=/src,target=/dst nginx",
        "",
        "latest",
        2
    );
    assert!(result.is_ok());
    let yaml = result.unwrap();
    assert!(yaml.contains("/src:/dst"));
    assert!(!yaml.contains(":ro"));
}
