use installer::command::{
    compare_installed, confirm_to_continue, decide_restart, ensure_jdk_exists,
    ensure_spring_boot_jar_exists, finish_update, get_prod_jdk_path,
    get_prod_spring_boot_jar_path, launch, plan_artifacts, print_one_installer,
    register_installer, run_app, stop_jar, stop_single_app, unregister_installer, update_app,
    upgrade_state, ArtifactChoice, ArtifactRef, LaunchDecision, RegisterError, RestartAction,
    StagingStep, StopAction, UnitProbe, UpdateError, UpgradeState, VersionOrder,
};
use installer::download_config::DownloadConfig;
use installer::http::client::{CacheProbe, DownloadPlan, InstallerInfo, RemoteError};
use installer::installer_config::{ConfigError, Installer, InstallerConfig, InstallerData};
use installer::util::os::{OSInfo, TargetOs};

fn os_info() -> OSInfo {
    OSInfo {
        os_type: "Ubuntu".to_string(),
        version: "18.04".to_string(),
        edition: None,
        target_os: "linux".to_string(),
        target_arch: "x86_64".to_string(),
    }
}

fn unit(port: u32, token: &str, app_version: &str, jdk_version: &str) -> Installer {
    Installer {
        url: "https://blocklang.com".to_string(),
        installer_token: token.to_string(),
        app_name: "demo".to_string(),
        app_version: app_version.to_string(),
        app_file_name: format!("demo-{}.jar", app_version),
        app_run_port: port,
        jdk_name: "jdk".to_string(),
        jdk_version: jdk_version.to_string(),
        jdk_file_name: format!("jdk-{}.zip", jdk_version),
    }
}

fn described(port: u32, token: &str, app_version: &str, jdk_version: &str) -> InstallerInfo {
    InstallerInfo {
        url: Some("https://blocklang.com".to_string()),
        installer_token: token.to_string(),
        app_name: "demo".to_string(),
        app_version: app_version.to_string(),
        app_file_name: format!("demo-{}.jar", app_version),
        app_run_port: port,
        jdk_name: "jdk".to_string(),
        jdk_version: jdk_version.to_string(),
        jdk_file_name: format!("jdk-{}.zip", jdk_version),
    }
}

fn store(units: Vec<Installer>) -> InstallerConfig {
    InstallerConfig::from(
        "installer_config.toml",
        InstallerData { server_token: "AA:BB".to_string(), installers: units },
    )
    .unwrap()
}

fn ports(installer_config: &InstallerConfig) -> Vec<u32> {
    installer_config.get_data().installers.iter().map(|i| i.app_run_port).collect()
}

fn listening(port: u32, process_id: u32) -> Vec<String> {
    vec![format!("tcp        0      0 0.0.0.0:{}      0.0.0.0:*      LISTEN      {}/java", port, process_id)]
}

fn all_there() -> UnitProbe {
    UnitProbe {
        app_cache: CacheProbe { finished: true, partial_size: None },
        app_staged: true,
        jdk_cache: CacheProbe { finished: true, partial_size: None },
        jdk_target: true,
        jdk_marker: false,
    }
}

fn nothing_there() -> UnitProbe {
    UnitProbe {
        app_cache: CacheProbe { finished: false, partial_size: None },
        app_staged: false,
        jdk_cache: CacheProbe { finished: false, partial_size: None },
        jdk_target: false,
        jdk_marker: false,
    }
}

const EXPAND: [StagingStep; 4] = [
    StagingStep::CreateParent,
    StagingStep::CreateMarker,
    StagingStep::ExpandArchive,
    StagingStep::RemoveMarker,
];

#[test]
fn production_layout() {
    assert_eq!(
        "prod/demo/0.0.1/demo-0.0.1.jar",
        get_prod_spring_boot_jar_path("demo", "0.0.1", "demo-0.0.1.jar")
    );
    assert_eq!("prod/jdk/11.0.1/jdk-11.0.1", get_prod_jdk_path("jdk", "11.0.1"));
}

#[test]
fn staging_by_copy() {
    let plan = ensure_spring_boot_jar_exists("demo", "0.0.1", "demo-0.0.1.jar", false);
    assert_eq!("apps/demo/0.0.1/demo-0.0.1.jar", plan.cached);
    assert_eq!("prod/demo/0.0.1", plan.parent);
    assert_eq!("prod/demo/0.0.1/demo-0.0.1.jar", plan.target);
    assert_eq!(None, plan.marker);
    assert_eq!(vec![StagingStep::CreateParent, StagingStep::CopyFile], plan.steps);

    let staged = ensure_spring_boot_jar_exists("demo", "0.0.1", "demo-0.0.1.jar", true);
    assert_eq!("prod/demo/0.0.1/demo-0.0.1.jar", staged.target);
    assert!(staged.steps.is_empty());
}

#[test]
fn staging_by_expansion() {
    let plan = ensure_jdk_exists("jdk", "11.0.1", "jdk-11.0.1.zip", false, false);
    assert_eq!("apps/jdk/11.0.1/jdk-11.0.1.zip", plan.cached);
    assert_eq!("prod/jdk/11.0.1", plan.parent);
    assert_eq!("prod/jdk/11.0.1/jdk-11.0.1", plan.target);
    assert_eq!(Some("prod/jdk/11.0.1/jdk-11.0.1.zip_zipping".to_string()), plan.marker);
    assert_eq!(EXPAND.to_vec(), plan.steps);

    let staged = ensure_jdk_exists("jdk", "11.0.1", "jdk-11.0.1.zip", true, false);
    assert_eq!("prod/jdk/11.0.1/jdk-11.0.1", staged.target);
    assert!(staged.steps.is_empty());

    let marker_only = ensure_jdk_exists("jdk", "11.0.1", "jdk-11.0.1.zip", false, true);
    assert_eq!(EXPAND.to_vec(), marker_only.steps);
}

#[test]
fn interrupted_expansion_is_done_again() {
    let plan = ensure_jdk_exists("jdk", "11.0.1", "jdk-11.0.1.zip", true, true);
    assert_eq!(
        vec![
            StagingStep::RemoveTarget,
            StagingStep::RemoveMarker,
            StagingStep::CreateParent,
            StagingStep::CreateMarker,
            StagingStep::ExpandArchive,
            StagingStep::RemoveMarker,
        ],
        plan.steps
    );
    assert_eq!(Some(&StagingStep::RemoveMarker), plan.steps.last());
}

#[test]
fn versions_are_compared_by_their_parts() {
    let state = |installed: (&str, &str), latest: (&str, &str)| {
        compare_installed(
            &unit(80, "t", installed.0, installed.1),
            &described(80, "t", latest.0, latest.1),
        )
    };
    assert_eq!(Ok(UpgradeState::NoChange), state(("1.2.0", "8"), ("1.2.0", "8")));
    assert_eq!(Ok(UpgradeState::AppChanged), state(("1.2.0", "8"), ("1.3.0", "8")));
    assert_eq!(Ok(UpgradeState::JdkChanged), state(("1.2.0", "8"), ("1.2.0", "11.0.1")));
    assert_eq!(Ok(UpgradeState::BothChanged), state(("1.2.0", "8"), ("2", "11")));
    assert_eq!(Ok(UpgradeState::AppChanged), state(("1.9.0", "8"), ("1.10.0", "8")));
    assert_eq!(Ok(UpgradeState::NoChange), state(("1.10.0", "11"), ("1.9.0", "8")));
    assert_eq!(Ok(UpgradeState::NoChange), state(("1.2", "8.0"), ("1.2.0", "8")));
    assert_eq!(Err(UpdateError::InvalidVersion), state(("1.2.0", "8"), ("latest", "8")));
    assert_eq!(Err(UpdateError::InvalidVersion), state(("1.2.0", "eight"), ("1.3.0", "8")));
}

#[test]
fn upgrade_state_of_each_order() {
    let (older, same, newer) = (VersionOrder::Older, VersionOrder::Same, VersionOrder::Newer);
    assert_eq!(UpgradeState::NoChange, upgrade_state(same, same));
    assert_eq!(UpgradeState::NoChange, upgrade_state(older, same));
    assert_eq!(UpgradeState::NoChange, upgrade_state(same, older));
    assert_eq!(UpgradeState::NoChange, upgrade_state(older, older));
    assert_eq!(UpgradeState::AppChanged, upgrade_state(newer, same));
    assert_eq!(UpgradeState::AppChanged, upgrade_state(newer, older));
    assert_eq!(UpgradeState::JdkChanged, upgrade_state(same, newer));
    assert_eq!(UpgradeState::JdkChanged, upgrade_state(older, newer));
    assert_eq!(UpgradeState::BothChanged, upgrade_state(newer, newer));
}

#[test]
fn only_the_changed_artifact_is_acquired() {
    let installed = unit(80, "t", "1.2.0", "8");
    let latest = described(80, "t", "1.3.0", "8");
    let plan = update_app(&installed, &latest).unwrap();
    assert_eq!(UpgradeState::AppChanged, plan.state);
    assert_eq!(
        ArtifactChoice::Acquire {
            artifact: ArtifactRef {
                name: "demo".to_string(),
                version: "1.3.0".to_string(),
                file_name: "demo-1.3.0.jar".to_string(),
            }
        },
        plan.app
    );
    assert_eq!(ArtifactChoice::Reuse { path: "prod/jdk/8/jdk-8".to_string() }, plan.jdk);
}

#[test]
fn artifacts_of_each_state() {
    let installed = unit(80, "t", "1.2.0", "8");
    let latest = described(80, "t", "1.3.0", "11");
    let new_app = ArtifactChoice::Acquire {
        artifact: ArtifactRef {
            name: "demo".to_string(),
            version: "1.3.0".to_string(),
            file_name: "demo-1.3.0.jar".to_string(),
        },
    };
    let new_jdk = ArtifactChoice::Acquire {
        artifact: ArtifactRef {
            name: "jdk".to_string(),
            version: "11".to_string(),
            file_name: "jdk-11.zip".to_string(),
        },
    };
    let old_app = ArtifactChoice::Reuse { path: "prod/demo/1.2.0/demo-1.2.0.jar".to_string() };
    let old_jdk = ArtifactChoice::Reuse { path: "prod/jdk/8/jdk-8".to_string() };

    let plan = plan_artifacts(UpgradeState::NoChange, &installed, &latest);
    assert_eq!((&old_app, &old_jdk), (&plan.app, &plan.jdk));
    let plan = plan_artifacts(UpgradeState::AppChanged, &installed, &latest);
    assert_eq!((&new_app, &old_jdk), (&plan.app, &plan.jdk));
    let plan = plan_artifacts(UpgradeState::JdkChanged, &installed, &latest);
    assert_eq!((&old_app, &new_jdk), (&plan.app, &plan.jdk));
    let plan = plan_artifacts(UpgradeState::BothChanged, &installed, &latest);
    assert_eq!((&new_app, &new_jdk), (&plan.app, &plan.jdk));
    assert_eq!(UpgradeState::BothChanged, update_app(&installed, &latest).unwrap().state);
    assert_eq!(
        Some(UpdateError::InvalidVersion),
        update_app(&installed, &described(80, "t", "", "x")).err()
    );
}

#[test]
fn restart_only_what_runs_and_has_changed() {
    assert_eq!(RestartAction::PersistOnly, decide_restart(UpgradeState::NoChange, None));
    assert_eq!(RestartAction::PersistOnly, decide_restart(UpgradeState::AppChanged, None));
    assert_eq!(RestartAction::PersistOnly, decide_restart(UpgradeState::BothChanged, None));
    assert_eq!(RestartAction::Nothing, decide_restart(UpgradeState::NoChange, Some(7)));
    assert_eq!(
        RestartAction::Restart { process_id: 7 },
        decide_restart(UpgradeState::AppChanged, Some(7))
    );
    assert_eq!(
        RestartAction::Restart { process_id: 8 },
        decide_restart(UpgradeState::JdkChanged, Some(8))
    );
    assert_eq!(
        RestartAction::Restart { process_id: 9 },
        decide_restart(UpgradeState::BothChanged, Some(9))
    );
}

#[test]
fn finish_update_persists_unless_nothing_is_done() {
    let latest = || described(80, "t2", "1.3.0", "8");

    let mut halted = store(vec![unit(80, "t", "1.2.0", "8")]);
    assert_eq!(
        Ok(RestartAction::PersistOnly),
        finish_update(&mut halted, 80, UpgradeState::AppChanged, latest(), None)
    );
    assert_eq!("1.3.0", halted.get_data().installers[0].app_version);
    assert_eq!("t2", halted.get_data().installers[0].installer_token);

    let mut current = store(vec![unit(80, "t", "1.2.0", "8")]);
    assert_eq!(
        Ok(RestartAction::Nothing),
        finish_update(&mut current, 80, UpgradeState::NoChange, latest(), Some(5))
    );
    assert_eq!("1.2.0", current.get_data().installers[0].app_version);
    assert_eq!("t", current.get_data().installers[0].installer_token);

    let mut live = store(vec![unit(8080, "o", "1", "8"), unit(80, "t", "1.2.0", "8")]);
    assert_eq!(
        Ok(RestartAction::Restart { process_id: 5 }),
        finish_update(&mut live, 80, UpgradeState::AppChanged, latest(), Some(5))
    );
    assert_eq!("1", live.get_data().installers[0].app_version);
    assert_eq!("1.3.0", live.get_data().installers[1].app_version);
    assert_eq!("demo-1.3.0.jar", live.get_data().installers[1].app_file_name);

    let mut refused = store(vec![unit(80, "t", "1.2.0", "8")]);
    let mut without_url = latest();
    without_url.url = None;
    assert_eq!(
        Err(ConfigError::MissingUrl),
        finish_update(&mut refused, 80, UpgradeState::AppChanged, without_url, Some(5))
    );
    assert_eq!("1.2.0", refused.get_data().installers[0].app_version);
}

#[test]
fn run_of_a_new_unit_fetches_and_stages_both() {
    let installer = unit(80, "t", "1.2.0", "11.0.1");
    let plan =
        run_app(&installer, &os_info(), nothing_there(), DownloadConfig::new(), DownloadConfig::new());
    match &plan.app_download {
        DownloadPlan::Fetch { request } => {
            assert_eq!(
                "https://blocklang.com/apps?appName=demo&version=1.2.0&targetOs=linux&arch=x86_64",
                request.url
            );
            assert_eq!("apps/demo/1.2.0/demo-1.2.0.jar", request.final_path);
        }
        DownloadPlan::Cached { .. } => panic!("the application is not cached"),
    }
    match &plan.jdk_download {
        DownloadPlan::Fetch { request } => {
            assert_eq!(
                "https://blocklang.com/apps?appName=jdk&version=11.0.1&targetOs=linux&arch=x86_64",
                request.url
            );
            assert_eq!("apps/jdk/11.0.1/jdk-11.0.1.zip.part", request.part_path);
        }
        DownloadPlan::Cached { .. } => panic!("the runtime is not cached"),
    }
    assert_eq!(vec![StagingStep::CreateParent, StagingStep::CopyFile], plan.app_staging.steps);
    assert_eq!("prod/demo/1.2.0/demo-1.2.0.jar", plan.app_staging.target);
    assert_eq!(EXPAND.to_vec(), plan.jdk_staging.steps);
    assert_eq!("prod/jdk/11.0.1/jdk-11.0.1", plan.jdk_staging.target);
}

#[test]
fn run_of_a_running_unit_does_nothing() {
    let installer = unit(80, "t", "1.2.0", "11.0.1");
    let plan =
        run_app(&installer, &os_info(), all_there(), DownloadConfig::new(), DownloadConfig::new());
    assert_eq!(
        DownloadPlan::Cached { path: "apps/demo/1.2.0/demo-1.2.0.jar".to_string() },
        plan.app_download
    );
    assert_eq!(
        DownloadPlan::Cached { path: "apps/jdk/11.0.1/jdk-11.0.1.zip".to_string() },
        plan.jdk_download
    );
    assert!(plan.app_staging.steps.is_empty());
    assert!(plan.jdk_staging.steps.is_empty());
    assert_eq!(
        LaunchDecision::AlreadyRunning { process_id: 4321 },
        launch(TargetOs::Linux, &installer, Some(4321))
    );
}

#[test]
fn launch_on_a_free_port() {
    let installer = unit(8080, "t", "1.2.0", "11.0.1");
    match launch(TargetOs::Linux, &installer, None) {
        LaunchDecision::Start { command } => {
            assert_eq!("java", command.program);
            assert_eq!("prod/jdk/11.0.1/jdk-11.0.1/bin", command.path);
            assert_eq!(
                vec!["-jar", "prod/demo/1.2.0/demo-1.2.0.jar", "--server.port", "8080"],
                command.args
            );
        }
        LaunchDecision::AlreadyRunning { .. } => panic!("the port is free"),
    }
}

#[test]
fn stop_kills_what_listens_on_the_port() {
    match stop_jar(TargetOs::Linux, &listening(80, 4321), 80) {
        StopAction::Kill { process_id, command } => {
            assert_eq!(4321, process_id);
            assert_eq!("sh", command.program);
            assert_eq!(vec!["-c", "kill -9 4321"], command.args);
        }
        StopAction::NotRunning => panic!("a process listens on the port"),
    }
    assert!(matches!(stop_jar(TargetOs::Linux, &listening(8080, 4321), 80), StopAction::NotRunning));
    assert!(matches!(stop_jar(TargetOs::Linux, &Vec::new(), 80), StopAction::NotRunning));
    assert!(matches!(stop_jar(TargetOs::Macos, &listening(80, 4321), 80), StopAction::NotRunning));
}

#[test]
fn stop_leaves_unregistered_ports_alone() {
    let installer_config = store(vec![unit(80, "t", "1", "8")]);
    assert!(stop_single_app(&installer_config, TargetOs::Linux, &listening(8080, 7), 8080).is_none());
    assert!(matches!(
        stop_single_app(&installer_config, TargetOs::Linux, &listening(80, 7), 80),
        Some(StopAction::Kill { process_id: 7, .. })
    ));
    assert!(matches!(
        stop_single_app(&installer_config, TargetOs::Linux, &listening(8080, 7), 80),
        Some(StopAction::NotRunning)
    ));
}

#[test]
fn register_puts_the_described_unit_into_the_store() {
    let mut installer_config = store(Vec::new());
    let mut body = described(80, "t", "1.2.0", "8");
    body.url = None;
    assert_eq!(Ok(()), register_installer(&mut installer_config, "https://my.platform", 201, Some(body)));
    assert_eq!(vec![80], ports(&installer_config));
    assert_eq!("https://my.platform", installer_config.get_data().installers[0].url);
    assert_eq!("t", installer_config.get_data().installers[0].installer_token);
}

#[test]
fn register_leaves_the_store_on_failure() {
    let mut installer_config = store(vec![unit(80, "t", "1", "8")]);
    assert_eq!(
        Err(RegisterError::Remote(RemoteError::Validation)),
        register_installer(&mut installer_config, "u", 422, None)
    );
    assert_eq!(
        Err(RegisterError::Remote(RemoteError::InvalidBody)),
        register_installer(&mut installer_config, "u", 201, None)
    );
    assert_eq!(
        Err(RegisterError::Remote(RemoteError::UnexpectedStatus(500))),
        register_installer(&mut installer_config, "u", 500, Some(described(81, "x", "1", "8")))
    );
    assert_eq!(
        Err(RegisterError::Config(ConfigError::PortTaken)),
        register_installer(&mut installer_config, "u", 201, Some(described(80, "x", "1", "8")))
    );
    assert_eq!(vec![80], ports(&installer_config));
    assert_eq!("t", installer_config.get_data().installers[0].installer_token);
}

#[test]
fn unregister_of_three_units_where_one_fails() {
    let mut installer_config =
        store(vec![unit(80, "a", "1", "8"), unit(8080, "b", "1", "8"), unit(9090, "c", "1", "8")]);
    let answers = [(80, 204_u16), (8080, 500_u16), (9090, 204_u16)];
    let mut stopped = Vec::new();
    for (port, status) in answers {
        let listing = listening(port, port + 1);
        match unregister_installer(&mut installer_config, TargetOs::Linux, port, status, &listing) {
            Ok(StopAction::Kill { process_id, .. }) => stopped.push(process_id),
            Ok(StopAction::NotRunning) => panic!("the unit is running"),
            Err(e) => assert_eq!(RemoteError::UnexpectedStatus(500), e),
        }
    }
    assert_eq!(vec![81, 9091], stopped);
    assert_eq!(vec![8080], ports(&installer_config));
    assert_eq!("b", installer_config.get_data().installers[0].installer_token);
}

#[test]
fn unregister_in_one_sweep_where_one_fails() {
    let mut installer_config =
        store(vec![unit(80, "a", "1", "8"), unit(8080, "b", "1", "8"), unit(9090, "c", "1", "8")]);
    installer_config.remove_all(|installer| installer.installer_token != "b");
    assert_eq!(vec![8080], ports(&installer_config));
}

#[test]
fn unregister_of_an_unknown_unit() {
    let mut installer_config = store(vec![unit(80, "a", "1", "8")]);
    let r = unregister_installer(&mut installer_config, TargetOs::Linux, 80, 404, &listening(80, 5));
    assert_eq!(Some(RemoteError::NotFound), r.err());
    assert_eq!(vec![80], ports(&installer_config));
    let r = unregister_installer(&mut installer_config, TargetOs::Linux, 8080, 204, &Vec::new());
    assert!(matches!(r, Ok(StopAction::NotRunning)));
    assert_eq!(vec![80], ports(&installer_config));
    let r = unregister_installer(&mut installer_config, TargetOs::Linux, 80, 204, &Vec::new());
    assert!(matches!(r, Ok(StopAction::NotRunning)));
    assert!(ports(&installer_config).is_empty());
}

#[test]
fn unregister_goes_by_the_port_where_tokens_are_shared() {
    let mut installer_config = store(vec![unit(80, "t", "1", "8"), unit(8080, "t", "1", "8")]);
    let r = unregister_installer(&mut installer_config, TargetOs::Linux, 8080, 204, &Vec::new());
    assert!(r.is_ok());
    assert_eq!(vec![80], ports(&installer_config));
}

#[test]
fn confirmation_takes_a_y_only() {
    assert!(confirm_to_continue("Y"));
    assert!(confirm_to_continue("y\n"));
    assert!(confirm_to_continue("  Y \r\n"));
    assert!(!confirm_to_continue(""));
    assert!(!confirm_to_continue("\n"));
    assert!(!confirm_to_continue("N"));
    assert!(!confirm_to_continue("yes"));
    assert!(!confirm_to_continue("YY"));
    assert!(!confirm_to_continue("y y"));
}

#[test]
fn cells_of_a_unit() {
    assert_eq!(
        vec!["8080", "t", "https://blocklang.com", "demo", "1.2.0"],
        print_one_installer(&unit(8080, "t", "1.2.0", "8"))
    );
}
