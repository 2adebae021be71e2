use openppp2_client::assets::decode_bypass_list;
use openppp2_client::candidates::{
    collect_candidates, collect_defaults, resolve_selection, with_default_entry, Candidate,
    FoundFile, Selection,
};
use openppp2_client::cli::{Cli, SubCommand};
use openppp2_client::client_config::DefaultConfigItem;
use openppp2_client::launch::{
    executable_names, first_step, launch_args, next_step, plan_launch, resolve_use_target,
    LaunchError, LaunchStep, SpawnOutcome, UseTarget,
};
use openppp2_client::menu::{menu_labels, select_t, strip_newlines};
use openppp2_client::settings::{default_settings, host_port_string, server_uri_string};
use openppp2_client::utils::Unzip;

fn found(dir: &str, name: &str) -> FoundFile {
    FoundFile {
        dir_name: dir.to_string(),
        name: name.to_string(),
        path: format!("/x/{dir}/{name}"),
    }
}

#[test]
fn same_file_name_in_two_directories() {
    let c = collect_candidates(&vec![found("one", "a.json"), found("two", "a.json")]);
    assert_eq!(c.len(), 2);
    assert_eq!(c[0].label, "a.json");
    assert_eq!(c[1].label, "two/a.json");
    assert_ne!(c[0].label, c[1].label);
    assert_eq!(c[1].source_path.as_deref(), Some("/x/two/a.json"));
}

#[test]
fn labels_stay_distinct_when_directory_names_repeat() {
    let files = vec![
        found("conf", "a.json"),
        FoundFile { dir_name: "conf".into(), name: "a.json".into(), path: "/b/conf/a.json".into() },
        FoundFile { dir_name: "conf".into(), name: "a.json".into(), path: "/c/conf/a.json".into() },
    ];
    let c = collect_candidates(&files);
    let labels: Vec<&str> = c.iter().map(|c| c.label.as_str()).collect();
    assert_eq!(labels, vec!["a.json", "conf/a.json", "/c/conf/a.json"]);
}

#[test]
fn repeated_paths_are_listed_once() {
    let c = collect_candidates(&vec![found("d", "a.json"), found("d", "a.json")]);
    assert_eq!(c.len(), 1);
    assert_eq!(c[0].label, "a.json");
}

#[test]
fn no_directories_no_candidates() {
    assert!(collect_candidates(&vec![]).is_empty());
}

#[test]
fn default_entry_leads_and_selection_resolves() {
    let c = with_default_entry(collect_candidates(&vec![found("d", "foo.json")]));
    assert_eq!(c[0], Candidate { label: "Default".to_string(), source_path: None });
    assert_eq!(resolve_selection(&c, Some(0)), Selection::Defaults);
    assert_eq!(resolve_selection(&c, Some(1)), Selection::File("/x/d/foo.json".to_string()));
    assert_eq!(resolve_selection(&c, Some(2)), Selection::Exit);
    assert_eq!(resolve_selection(&c, None), Selection::Exit);
}

#[test]
fn defaults_then_ssh_entries() {
    let settings = vec![DefaultConfigItem::example()];
    let ssh = vec![DefaultConfigItem { name: "a".into(), ip: "1.1.1.1".into(), port: 80 }];
    let all = collect_defaults(&settings, Some(ssh.clone()));
    assert_eq!(all, vec![settings[0].clone(), ssh[0].clone()]);
    assert_eq!(collect_defaults(&settings, None), settings);
}

#[test]
fn materialized_settings() {
    assert_eq!(server_uri_string("1.2.3.4", 443), "ppp://1.2.3.4:443/");
    assert_eq!(host_port_string("1.2.3.4", 443), "1.2.3.4:443");
    let text = default_settings("1.2.3.4", 443).unwrap();
    let doc = json::parse(&text).unwrap();
    assert_eq!(doc["client"]["server"].as_str(), Some("ppp://1.2.3.4:443/"));
    assert_eq!(doc["udp"]["static"]["servers"].len(), 1);
    assert_eq!(doc["udp"]["static"]["servers"][0].as_str(), Some("1.2.3.4:443"));
    let base = json::parse(openppp2_client::settings::APPSETTINGS_TEMPLATE).unwrap();
    assert_eq!(doc["client"]["guid"], base["client"]["guid"]);
    assert_eq!(doc["tcp"], base["tcp"]);
    assert_eq!(doc["udp"]["static"]["dns"], base["udp"]["static"]["dns"]);
    assert_eq!(default_settings("1.2.3.4", 443).unwrap(), text);
}

#[test]
fn launch_needs_existing_config() {
    let args = vec!["--mode=client".to_string()];
    assert_eq!(plan_launch(false, &args, "missing.json", None), Err(LaunchError::ConfigMissing));
    assert_eq!(
        plan_launch(true, &args, "c.json", None),
        Ok(vec!["--mode=client".to_string(), "--config=c.json".to_string()])
    );
}

#[test]
fn use_subcommand_with_a_file() {
    let cli = Cli {
        config: None,
        parse_ssh_config: true,
        enable_chnroutes: false,
        bypass_iplist: true,
        subcommand: Some(SubCommand::Use { config: "foo.json".to_string() }),
    };
    let Some(SubCommand::Use { config }) = &cli.subcommand else { panic!() };
    let target = resolve_use_target(config);
    assert_eq!(target, UseTarget::Path("foo.json".to_string()));
    let args = vec!["--mode=client".to_string(), "--tun-mux=4".to_string()];
    let with_list = launch_args(&args, "foo.json", Some("/tmp/openppp2/ip.txt"));
    assert_eq!(
        with_list,
        vec![
            "--mode=client".to_string(),
            "--tun-mux=4".to_string(),
            "--config=foo.json".to_string(),
            "--bypass-iplist=/tmp/openppp2/ip.txt".to_string(),
        ]
    );
    let without = launch_args(&args, "foo.json", None);
    assert_eq!(without.last().unwrap(), "--config=foo.json");
    assert_eq!(without.len(), 3);
}

#[test]
fn use_subcommand_with_an_endpoint() {
    match resolve_use_target("10.0.0.1:2777") {
        UseTarget::Endpoint(item) => {
            assert_eq!(item.ip, "10.0.0.1");
            assert_eq!(item.port, 2777);
        }
        other => panic!("unexpected {other:?}"),
    }
}

#[test]
fn executable_fallback_steps() {
    assert_eq!(executable_names(), vec!["ppp", "ppp.cmd", "ppp.sh"]);
    assert_eq!(first_step(), LaunchStep::Try(0));
    assert_eq!(next_step(0, SpawnOutcome::NotFound), LaunchStep::Try(1));
    assert_eq!(next_step(1, SpawnOutcome::NotFound), LaunchStep::Try(2));
    assert_eq!(
        next_step(2, SpawnOutcome::NotFound),
        LaunchStep::Fail(LaunchError::ExecutableNotFound)
    );
    assert_eq!(next_step(1, SpawnOutcome::Spawned), LaunchStep::Wait);
    assert_eq!(
        next_step(0, SpawnOutcome::OtherError),
        LaunchStep::Fail(LaunchError::SpawnFailed)
    );
}

#[test]
fn chnroutes_switch() {
    let cli = Cli {
        config: None,
        parse_ssh_config: true,
        enable_chnroutes: false,
        bypass_iplist: true,
        subcommand: None,
    };
    assert!(!cli.chnroutes_wanted(false));
    assert!(cli.chnroutes_wanted(true));
}

#[test]
fn menu_picks() {
    let items = vec![
        DefaultConfigItem { name: "a\nb".into(), ip: "h".into(), port: 1 },
        DefaultConfigItem::example(),
    ];
    assert_eq!(menu_labels(&items), vec!["ab, h:1".to_string(), "example, 127.0.0.1:2777".into()]);
    assert_eq!(strip_newlines("\nx\n\ny"), "xy");
    assert_eq!(select_t(items.clone(), Some(1)), Some(DefaultConfigItem::example()));
    assert_eq!(select_t(items.clone(), Some(2)), None);
    assert_eq!(select_t(items, None), None);
}

#[test]
fn unzip_pairs() {
    let (a, b) = vec![(1u8, 'x'), (2, 'y'), (3, 'z')].unzip();
    assert_eq!(a, vec![1, 2, 3]);
    assert_eq!(b, vec!['x', 'y', 'z']);
    let (c, d): (Vec<u8>, Vec<u8>) = Vec::new().unzip();
    assert!(c.is_empty() && d.is_empty());
}

#[test]
fn bypass_list_decodes() {
    let data = b"1.0.1.0/24\n1.0.2.0/23\n".to_vec();
    let compressed = zstd::encode_all(&data[..], 3).unwrap();
    assert_ne!(compressed, data);
    assert_eq!(decode_bypass_list(&compressed), Some(data));
    assert_eq!(decode_bypass_list(&b"not zstd".to_vec()), None);
}
