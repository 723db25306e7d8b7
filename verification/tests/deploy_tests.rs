use minion::command::Policy;
use minion::command::StepKind;
use minion::deploy::DeployCommand;
use minion::deploy::host_rules;
use minion::deploy::volumes_section;
use minion::text::parse_port;
use minion::text::u16_string;

#[test]
fn test_parse_volumes_empty() {
    let mappings = DeployCommand::parse_volumes("").unwrap();
    assert!(mappings.is_empty());
}

#[test]
fn test_parse_volumes_valid() {
    let volumes = "my-vol:/remote/path,local:/other/remote";
    let mappings = DeployCommand::parse_volumes(volumes).unwrap();

    assert_eq!(mappings.len(), 2);
    assert_eq!(mappings[0].0, "my-vol");
    assert_eq!(mappings[0].1, "/remote/path");
    assert_eq!(mappings[1].0, "local");
    assert_eq!(mappings[1].1, "/other/remote");
}

#[test]
fn test_parse_volumes_invalid_format() {
    let result = DeployCommand::parse_volumes("invalid_format");
    assert!(result.is_err());
}

#[test]
fn test_parse_volumes_reports_offending_entry() {
    let result = DeployCommand::parse_volumes("ok:/data,broken");
    match result {
        Err(e) => assert_eq!(e.entry(), "broken"),
        Ok(_) => panic!("a malformed entry must reject the whole argument"),
    }
}

#[test]
fn test_parse_volumes_splits_at_first_colon() {
    let mappings = DeployCommand::parse_volumes("name:/a:/b").unwrap();
    assert_eq!(mappings.len(), 1);
    assert_eq!(mappings[0].0, "name");
    assert_eq!(mappings[0].1, "/a:/b");
}

#[test]
fn test_host_rules_two_hosts() {
    let urls = vec!["a.example.com".to_string(), "b.example.com".to_string()];
    assert_eq!(
        host_rules(&urls),
        "Host(`a.example.com`) || Host(`b.example.com`)"
    );
}

#[test]
fn test_host_rules_single_host() {
    let urls = vec!["app.example.com".to_string()];
    assert_eq!(host_rules(&urls), "Host(`app.example.com`)");
}

#[test]
fn test_volumes_section_empty_is_absent() {
    let vols: Vec<(String, String)> = Vec::new();
    assert_eq!(volumes_section("web", &vols), "");
}

#[test]
fn test_volumes_section_lines() {
    let vols = vec![
        ("data".to_string(), "/var/data".to_string()),
        ("logs".to_string(), "/var/log/app".to_string()),
    ];
    assert_eq!(
        volumes_section("web", &vols),
        "    volumes:\n      - /opt/minion/web/volumes/data:/var/data\n      - /opt/minion/web/volumes/logs:/var/log/app"
    );
}

#[test]
fn test_deploy_plan_without_volumes_omits_section() {
    let template = "services:\n  {{app_name}}:\n    labels:\n      - \"traefik.http.routers.{{app_name}}.rule={{host_rules}}\"\n      - \"port={{port}}\"\n{{volumes_section}}";
    let plan = DeployCommand::deploy_plan(
        "web",
        "app.example.com",
        8000,
        "",
        "/tmp/web.tar",
        template,
    )
    .unwrap();

    assert_eq!(plan.first_url, "app.example.com");
    // build, save, three directory steps, then the compose write
    let step = &plan.steps[5];
    match &step.kind {
        StepKind::Remote { command } => {
            let expected = "cat > /opt/minion/web/docker-compose.yml << 'EOL'\nservices:\n  web:\n    labels:\n      - \"traefik.http.routers.web.rule=Host(`app.example.com`)\"\n      - \"port=8000\"\n\nEOL";
            assert_eq!(command, expected);
            assert!(!command.contains("volumes"));
        }
        _ => panic!("the sixth step writes the compose document"),
    }
}

#[test]
fn test_deploy_plan_step_order_and_policies() {
    let plan = DeployCommand::deploy_plan(
        "web",
        "a.example.com,b.example.com",
        3000,
        "data:/var/data",
        "/tmp/img.tar",
        "{{host_rules}}",
    )
    .unwrap();

    // two local steps, three directory steps, two per-volume steps, then
    // compose write, upload, load, remove, start
    assert_eq!(plan.steps.len(), 12);
    match &plan.steps[0].kind {
        StepKind::Local { program, args } => {
            assert_eq!(program, "docker");
            assert_eq!(
                args,
                &vec![
                    "build".to_string(),
                    "-t".to_string(),
                    "minion_web".to_string(),
                    ".".to_string(),
                    "--platform=linux/amd64".to_string(),
                ]
            );
        }
        _ => panic!("the first step builds the image locally"),
    }
    match &plan.steps[1].kind {
        StepKind::Local { program, args } => {
            assert_eq!(program, "docker");
            assert_eq!(
                args,
                &vec![
                    "save".to_string(),
                    "-o".to_string(),
                    "/tmp/img.tar".to_string(),
                    "minion_web".to_string(),
                ]
            );
        }
        _ => panic!("the second step persists the image"),
    }
    match &plan.steps[2].kind {
        StepKind::Remote { command } => assert_eq!(command, "sudo mkdir -p /opt/minion/web"),
        _ => panic!("the third step creates the app directory"),
    }
    match &plan.steps[5].kind {
        StepKind::Remote { command } => {
            assert_eq!(command, "sudo mkdir -p /opt/minion/web/volumes/data")
        }
        _ => panic!("the sixth step creates the volume directory"),
    }
    assert_eq!(plan.steps[5].policy, Policy::Critical);
    match &plan.steps[6].kind {
        StepKind::Remote { command } => {
            assert_eq!(
                command,
                "sudo chown -R minion:minion /opt/minion/web/volumes/data"
            )
        }
        _ => panic!("the seventh step hands the volume to the operating user"),
    }
    assert_eq!(plan.steps[6].policy, Policy::BestEffort);
    match &plan.steps[7].kind {
        StepKind::Remote { command } => {
            assert!(command.starts_with("cat > /opt/minion/web/docker-compose.yml << 'EOL'\n"));
            assert!(command.contains("Host(`a.example.com`) || Host(`b.example.com`)"));
        }
        _ => panic!("the eighth step writes the compose document"),
    }
    match &plan.steps[8].kind {
        StepKind::Upload {
            local_path,
            remote_path,
        } => {
            assert_eq!(local_path, "/tmp/img.tar");
            assert_eq!(remote_path, "/opt/minion/web/web.tar");
        }
        _ => panic!("the ninth step ships the archive"),
    }
    match &plan.steps[9].kind {
        StepKind::Remote { command } => {
            assert_eq!(command, "cd /opt/minion/web && docker load -i web.tar")
        }
        _ => panic!("the tenth step loads the image"),
    }
    match &plan.steps[10].kind {
        StepKind::Remote { command } => assert_eq!(command, "rm /opt/minion/web/web.tar"),
        _ => panic!("the eleventh step removes the archive copy"),
    }
    match &plan.steps[11].kind {
        StepKind::Remote { command } => {
            assert_eq!(command, "cd /opt/minion/web && docker compose up -d")
        }
        _ => panic!("the last step starts the stack"),
    }
    assert_eq!(plan.first_url, "a.example.com");
}

#[test]
fn test_deploy_plan_rejects_malformed_volumes() {
    let r = DeployCommand::deploy_plan("web", "a.example.com", 80, "oops", "/tmp/t.tar", "x");
    assert!(r.is_err());
}

#[test]
fn test_parse_port() {
    assert_eq!(parse_port("8000"), Some(8000));
    assert_eq!(parse_port("0"), Some(0));
    assert_eq!(parse_port("65535"), Some(65535));
    assert_eq!(parse_port("65536"), None);
    assert_eq!(parse_port(""), None);
    assert_eq!(parse_port("80a"), None);
    assert_eq!(parse_port("999999999999999999999"), None);
}

#[test]
fn test_u16_string() {
    assert_eq!(u16_string(0), "0");
    assert_eq!(u16_string(8000), "8000");
    assert_eq!(u16_string(65535), "65535");
}
