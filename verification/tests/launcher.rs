use srt_router::launcher::{
    fill_resource, finish_launch, interfaces_from, native_path, plan_injection, primary_ip_in,
    resolve_against, resolve_hosts_in, resolve_with, simplify_windows_path, subst, with_windows_exe,
    AppSpec, ConfigFileInject, HostAddress, InjectSpec, Injection, LauncherConfig,
};
use srt_router::toml_patch::render_config;

/// The trap that broke every bundled launcher on Windows: a canonicalized
/// resource dir is a verbatim path, and a verbatim path does no separator
/// translation.
#[test]
fn verbatim_resource_dir_is_simplified() {
    assert_eq!(
        simplify_windows_path(r"\\?\C:\Program Files\App/node"),
        r"C:\Program Files\App\node"
    );
}

#[test]
fn verbatim_unc_becomes_a_plain_unc_path() {
    assert_eq!(
        simplify_windows_path(r"\\?\UNC\nas\share\app/node"),
        r"\\nas\share\app\node"
    );
}

/// A device path has no non-verbatim spelling, so stripping the prefix would
/// break it. Leave it exactly as it came.
#[test]
fn verbatim_device_path_is_left_alone() {
    let device = r"\\?\Volume{4c1b02c1-d990-11dc-99ae-806e6f6e6963}\node";
    assert_eq!(simplify_windows_path(device), device);
}

#[test]
fn forward_slashes_become_backslashes() {
    assert_eq!(simplify_windows_path("C:/tools/node"), r"C:\tools\node");
}

#[test]
fn native_path_only_rewrites_on_windows() {
    assert_eq!(native_path("C:/tools/node", false), "C:/tools/node");
    assert_eq!(native_path("C:/tools/node", true), r"C:\tools\node");
}

#[test]
fn subst_fills_every_placeholder() {
    assert_eq!(subst("http://{host}:{port}/", "10.0.0.5", 9000, None), "http://10.0.0.5:9000/");
    assert_eq!(subst("{config}", "h", 1, Some("/tmp/c.toml")), "/tmp/c.toml");
    assert_eq!(subst("{config}", "h", 1, None), "{config}");
    assert_eq!(subst("{host}{host}", "a", 0, None), "aa");
}

fn cfg(mode: &str, args: &[&str], env: &[(&str, &str)]) -> LauncherConfig {
    LauncherConfig {
        app: AppSpec {
            name: "App".to_string(),
            command: "server".to_string(),
            args: args.iter().map(|s| s.to_string()).collect(),
            url: "http://{host}:{port}/".to_string(),
            default_port: 8080,
            cwd: None,
            theme: Vec::new(),
        },
        inject: InjectSpec {
            mode: mode.to_string(),
            configfile: None,
            env: env.iter().map(|(k, v)| (k.to_string(), v.to_string())).collect(),
        },
    }
}

#[test]
fn args_injection() {
    let c = cfg("args", &["--host", "{host}", "--port", "{port}"], &[]);
    assert!(matches!(plan_injection(&c, "127.0.0.1", 7000), Ok(Injection::Args)));
    let launch = finish_launch(&c, "127.0.0.1", 7000, "/work", "server".to_string(), None, None, false);
    assert_eq!(launch.args, vec!["--host", "127.0.0.1", "--port", "7000"]);
    assert_eq!(launch.cwd.as_deref(), Some("/work"));
    assert!(launch.envs.is_empty());
}

#[test]
fn rfutils_env_injection() {
    let c = cfg("env", &["server.js"], &[("RFUTILS_HOST", "{host}"), ("RFUTILS_SERVER_PORT", "{port}")]);
    let Ok(Injection::Env(envs)) = plan_injection(&c, "192.168.1.20", 8420) else {
        panic!("expected env injection")
    };
    assert!(envs.contains(&("RFUTILS_SERVER_PORT".into(), "8420".into())));
    assert!(envs.contains(&("RFUTILS_HOST".into(), "192.168.1.20".into())));
    let launch = finish_launch(&c, "192.168.1.20", 8420, "/work", "node".to_string(), None, None, false);
    assert!(launch.envs.contains(&("RFUTILS_SERVER_PORT".into(), "8420".into())));
    assert!(launch.envs.contains(&("RFUTILS_HOST".into(), "192.168.1.20".into())));
}

#[test]
fn configfile_without_its_table_and_unknown_modes_are_refused() {
    let c = cfg("configfile", &[], &[]);
    assert_eq!(
        plan_injection(&c, "h", 1).err().unwrap(),
        "inject.mode = \"configfile\" but [inject.configfile] is missing"
    );
    let c = cfg("telepathy", &[], &[]);
    assert_eq!(plan_injection(&c, "h", 1).err().unwrap(), "unknown inject.mode: telepathy");
}

#[test]
fn config_path_args_are_respelled_for_windows() {
    let c = cfg("args", &["{config}", "--url", "http://{host}:{port}/"], &[]);
    let launch = finish_launch(
        &c,
        "0.0.0.0",
        8080,
        "/w",
        "p".to_string(),
        Some("C:/w/rendered-config.toml".to_string()),
        None,
        true,
    );
    assert_eq!(launch.args[0], r"C:\w\rendered-config.toml");
    assert_eq!(launch.args[2], "http://0.0.0.0:8080/");
}

#[test]
fn interfaces_list_all_first_then_ipv4_only() {
    let host = vec![
        HostAddress { name: "lo".to_string(), ipv4: Some((127, 0, 0, 1)), loopback: true },
        HostAddress { name: "en0".to_string(), ipv4: None, loopback: false },
        HostAddress { name: "en0".to_string(), ipv4: Some((10, 147, 17, 93)), loopback: false },
    ];
    let list = interfaces_from(&host);
    assert_eq!(list.len(), 3);
    assert_eq!(list[0].name, "all");
    assert_eq!(list[0].label, "All interfaces (0.0.0.0)");
    assert_eq!(list[2].label, "en0: 10.147.17.93");
    assert_eq!(primary_ip_in(&list), "10.147.17.93");
    assert_eq!(resolve_hosts_in(&list, "all"), ("0.0.0.0".to_string(), "10.147.17.93".to_string()));
    assert_eq!(resolve_hosts_in(&list, "lo"), ("127.0.0.1".to_string(), "127.0.0.1".to_string()));
    assert_eq!(resolve_hosts_in(&list, "gone"), ("0.0.0.0".to_string(), "10.147.17.93".to_string()));
    let only_lo = interfaces_from(&vec![HostAddress {
        name: "lo".to_string(),
        ipv4: Some((127, 0, 0, 1)),
        loopback: true,
    }]);
    assert_eq!(primary_ip_in(&only_lo), "127.0.0.1");
}

fn configfile_cfg(command: &str, args: &[&str], template: &str, set_key: &str) -> LauncherConfig {
    let mut c = cfg("configfile", args, &[]);
    c.app.command = command.to_string();
    c.inject.configfile = Some(ConfigFileInject {
        template: template.to_string(),
        set_key: set_key.to_string(),
        value: "{host}:{port}".to_string(),
    });
    c
}

/// Config-file injection into a top-level `bind` key, the rendered config
/// passed as the one positional argument.
#[test]
fn flock_configfile_toplevel_bind() {
    let c = configfile_cfg("/bin/flock", &["{config}"], "/tmp/flock.example.toml", "bind");
    let Ok(Injection::ConfigFile { template, set_key, value }) = plan_injection(&c, "10.0.0.5", 9000) else {
        panic!("expected config-file injection")
    };
    assert_eq!(template, "/tmp/flock.example.toml");
    let raw = "bind = \"0.0.0.0:8080\"\nregistry_path = \"data/registry.json\"\n";
    let rendered = render_config(&template, raw, &set_key, &value).unwrap();
    assert!(rendered.contains("bind = \"10.0.0.5:9000\""), "top-level bind not patched: {rendered}");
    // Untouched keys are preserved.
    assert!(rendered.contains("registry_path = \"data/registry.json\""));
    let out = "/tmp/work/rendered-config.toml".to_string();
    let launch = finish_launch(&c, "10.0.0.5", 9000, "/tmp/work", "/bin/flock".to_string(), Some(out.clone()), None, false);
    assert_eq!(launch.args.len(), 1);
    assert_eq!(launch.args[0], out);
}

/// Config-file injection into a nested `web.bind` key.
#[test]
fn srt_router_configfile_nested_bind() {
    let c = configfile_cfg("/bin/srtrouter", &["--config", "{config}"], "/tmp/srt.example.toml", "web.bind");
    let Ok(Injection::ConfigFile { template, set_key, value }) = plan_injection(&c, "0.0.0.0", 8080) else {
        panic!("expected config-file injection")
    };
    let rendered = render_config(&template, "[web]\nbind = \"0.0.0.0:8080\"\n", &set_key, &value).unwrap();
    assert!(rendered.contains("bind = \"0.0.0.0:8080\""), "nested web.bind not patched: {rendered}");
    let out = "/tmp/work/rendered-config.toml".to_string();
    let launch = finish_launch(&c, "0.0.0.0", 8080, "/tmp/work", "/bin/srtrouter".to_string(), Some(out.clone()), None, false);
    assert_eq!(launch.args[0], "--config");
    assert_eq!(launch.args[1], out);
}

/// A relative `command` and `template` resolve against the resource
/// directory, and the working directory defaults to the writable work dir.
#[test]
fn bundled_relative_paths_resolve_against_resource_dir() {
    let res = std::path::PathBuf::from("/tmp/av-launcher-test-res");
    let work = std::path::PathBuf::from("/tmp/av-launcher-test-res-work");
    let res_text = res.to_string_lossy().into_owned();
    let work_text = work.to_string_lossy().into_owned();
    let c = configfile_cfg("flock", &["{config}"], "server-config.toml", "bind");
    let Ok(Injection::ConfigFile { template, set_key, value }) = plan_injection(&c, "0.0.0.0", 8080) else {
        panic!("expected config-file injection")
    };
    let template = resolve_against(&template, Some(&res_text), false);
    assert_eq!(template, res.join("server-config.toml").to_string_lossy());
    let rendered = render_config(&template, "bind = \"0.0.0.0:8080\"\n", &set_key, &value).unwrap();
    assert!(rendered.contains("bind = \"0.0.0.0:8080\""));
    let program = resolve_against(&fill_resource("flock", Some(&res_text)), Some(&res_text), false);
    let launch = finish_launch(&c, "0.0.0.0", 8080, &work_text, program, Some("r".to_string()), Some(&res_text), false);
    assert_eq!(launch.program, res.join("flock").to_string_lossy());
    assert_eq!(launch.cwd, Some(work_text));
}

/// On Windows neither the program nor a path argument may keep a verbatim
/// prefix or a forward slash; other arguments stay as written.
#[test]
fn windows_launch_paths_are_native() {
    let res = r"\\?\C:\Program Files\App";
    let mut c = cfg("args", &["{resource}/app/index.js", "--url", "http://{host}:{port}/"], &[]);
    c.app.command = "{resource}/node".to_string();
    // A verbatim drive path is absolute on Windows.
    let program = resolve_with(&fill_resource(&c.app.command, Some(res)), true, None, true);
    let program = with_windows_exe(program, true, false, true, false);
    let launch = finish_launch(&c, "0.0.0.0", 8080, "C:/work", program, None, Some(res), true);
    assert_eq!(launch.program, r"C:\Program Files\App\node");
    assert_eq!(launch.args[0], r"C:\Program Files\App\app\index.js");
    assert_eq!(launch.args[2], "http://0.0.0.0:8080/");
}

#[test]
fn resolving_a_relative_path_takes_the_joined_form() {
    assert_eq!(resolve_with("node", false, Some("C:/App/node".to_string()), true), r"C:\App\node");
    assert_eq!(resolve_with("node", false, None, false), "node");
    assert_eq!(resolve_against("/abs/node", None, false), "/abs/node");
}

#[test]
fn the_exe_is_added_only_when_it_alone_exists_on_windows() {
    assert_eq!(with_windows_exe("C:/App/node".to_string(), true, false, false, true), "C:/App/node.exe");
    assert_eq!(with_windows_exe("C:/App/node".to_string(), true, false, true, true), "C:/App/node");
    assert_eq!(with_windows_exe("C:/App/node.cmd".to_string(), true, true, false, true), "C:/App/node.cmd");
    assert_eq!(with_windows_exe("/usr/bin/node".to_string(), false, false, false, true), "/usr/bin/node");
}

#[test]
fn a_key_under_a_plain_value_is_refused() {
    let r = render_config("t.toml", "web = \"x\"\n", "web.bind", "1");
    assert_eq!(r.err().unwrap(), "setting web.bind in template t.toml: not a table");
    let r = render_config("t.toml", "= broken", "bind", "1");
    assert!(r.err().unwrap().starts_with("parsing template t.toml: "));
}

#[test]
fn resource_placeholder_is_left_without_a_resource_dir() {
    assert_eq!(fill_resource("{resource}/node", None), "{resource}/node");
    assert_eq!(fill_resource("{resource}/node", Some("/opt/app")), "/opt/app/node");
}

#[test]
fn unix_paths_resolve_against_the_base() {
    assert_eq!(resolve_against("node", Some("/opt/app"), false), "/opt/app/node");
    assert_eq!(resolve_against("node", Some("/opt/app/"), false), "/opt/app/node");
    assert_eq!(resolve_against("node", Some(""), false), "node");
    assert_eq!(resolve_against("/usr/bin/node", Some("/opt/app"), false), "/usr/bin/node");
    assert_eq!(resolve_against("node", None, false), "node");
}

#[test]
fn a_nested_key_makes_its_tables() {
    let rendered = render_config("t.toml", "name = \"x\"\n", "web.bind", "0.0.0.0:80").unwrap();
    let back: toml::Value = toml::from_str(&rendered).unwrap();
    assert_eq!(back["web"]["bind"].as_str(), Some("0.0.0.0:80"));
    assert_eq!(back["name"].as_str(), Some("x"));
    let replaced = render_config("t.toml", "[web]\nbind = 1\nport = 2\n", "web.bind", "h:1").unwrap();
    let back: toml::Value = toml::from_str(&replaced).unwrap();
    assert_eq!(back["web"]["bind"].as_str(), Some("h:1"));
    assert_eq!(back["web"]["port"].as_integer(), Some(2));
}

#[test]
fn a_host_naming_the_resource_placeholder_is_not_filled_in() {
    let c = cfg("args", &["{host}", "{resource}/x"], &[]);
    let launch = finish_launch(&c, "{resource}", 1, "/w", "p".to_string(), None, Some("R"), false);
    assert_eq!(launch.args[0], "{resource}");
    assert_eq!(launch.args[1], "R/x");
}
