use rign::cli::use_version::{switch_step, SwitchStep};
use rign::cli::add_path::{plan_add_path, AddPathArgs, PathNote};
use rign::cli::clean_path::{plan_clean_path, CleanPathArgs};
use rign::cli::install::{
    arch_from_name, build_download_url, get_arch, plan_install, release_number, InstallArch,
    InstallStep, EXT, OS,
};
use rign::cli::list::current_marks;
use rign::cli::uninstall::{
    active_link_step, matching_versions, uninstall_choice, ActiveLinkStep, UninstallChoice,
};
use rign::node_version::{LtsInfo, NodeVersion};
use rign::version::VersionReq;

fn s(x: &str) -> String {
    x.to_string()
}

fn release(version: &str, files: &[&str]) -> NodeVersion {
    NodeVersion {
        version: s(version),
        date: s("2024-01-01"),
        files: files.iter().map(|f| s(f)).collect(),
        v8: s("11.3"),
        lts: LtsInfo::No(false),
        security: false,
        npm: None,
        uv: None,
        zlib: None,
        openssl: None,
        modules: None,
    }
}

#[test]
fn add_path_appends_missing_directories() {
    let paths = vec![s("C:\\tools"), s("C:\\rign")];
    let plan = plan_add_path(&paths, &s("C:\\rign"), &s("C:\\rign\\nodejs\\actived"), &AddPathArgs { no_exe: false, no_node: false });
    assert_eq!(plan.notes, vec![PathNote::Other, PathNote::ToolDir]);
    assert!(!plan.append_exe);
    assert!(plan.append_node);
}

#[test]
fn add_path_respects_flags_and_present_entries() {
    let paths = vec![s("C:\\rign\\nodejs\\actived"), s("C:\\rign")];
    let both = plan_add_path(&paths, &s("C:\\rign"), &s("C:\\rign\\nodejs\\actived"), &AddPathArgs { no_exe: false, no_node: false });
    assert_eq!(both.notes, vec![PathNote::NodeDir, PathNote::ToolDir]);
    assert!(!both.append_exe && !both.append_node);
    let empty: Vec<String> = vec![];
    let flags = plan_add_path(&empty, &s("a"), &s("b"), &AddPathArgs { no_exe: true, no_node: true });
    assert!(!flags.append_exe && !flags.append_node);
    let exe_only = plan_add_path(&empty, &s("a"), &s("b"), &AddPathArgs { no_exe: false, no_node: true });
    assert!(exe_only.append_exe && !exe_only.append_node);
}

#[test]
fn add_path_same_directory_counts_as_tool_dir() {
    let paths = vec![s("C:\\x")];
    let plan = plan_add_path(&paths, &s("C:\\x"), &s("C:\\x"), &AddPathArgs { no_exe: false, no_node: false });
    assert_eq!(plan.notes, vec![PathNote::ToolDir]);
    assert!(!plan.append_exe);
    assert!(plan.append_node);
}

#[test]
fn clean_path_marks_and_removes() {
    let paths = vec![s("C:\\tools"), s("C:\\rign"), s("C:\\rign\\nodejs\\actived")];
    let plan = plan_clean_path(&paths, &s("C:\\rign"), &s("C:\\rign\\nodejs\\actived"), &CleanPathArgs { no_exe: true, no_node: false });
    assert_eq!(
        plan.rows,
        vec![(PathNote::Other, false), (PathNote::ToolDir, false), (PathNote::NodeDir, true)]
    );
    assert!(!plan.already_clean);
    assert!(!plan.remove_exe);
    assert!(plan.remove_node);
}

#[test]
fn clean_path_already_clean() {
    let paths = vec![s("C:\\tools")];
    let plan = plan_clean_path(&paths, &s("C:\\rign"), &s("C:\\node"), &CleanPathArgs { no_exe: false, no_node: false });
    assert!(plan.already_clean);
    assert!(!plan.remove_exe && !plan.remove_node);
}

#[test]
fn download_url_is_built_from_parts() {
    let (url, file) = build_download_url("https://nodejs.org/dist", "22.17.1", OS, "x64", EXT);
    assert_eq!(file, "node-v22.17.1-win-x64.zip");
    assert_eq!(url, "https://nodejs.org/dist/v22.17.1/node-v22.17.1-win-x64.zip");
}

#[test]
fn arch_selection() {
    assert_eq!(get_arch(InstallArch::X64, "arm"), "x64");
    assert_eq!(get_arch(InstallArch::X86, "x86_64"), "x86");
    assert_eq!(get_arch(InstallArch::Arm64, "x86"), "arm64");
    assert_eq!(get_arch(InstallArch::Default, "x86_64"), "x64");
    assert_eq!(get_arch(InstallArch::Default, "AARCH64"), "arm64");
    assert_eq!(get_arch(InstallArch::Default, "x86"), "x86");
    assert_eq!(arch_from_name("aarch64"), "arm64");
    assert_eq!(arch_from_name("arm"), "x86");
    assert_eq!(arch_from_name("x86_64"), "x64");
}

#[test]
fn release_number_drops_leading_v() {
    assert_eq!(release_number(&release("v22.17.1", &[])), "22.17.1");
    assert_eq!(release_number(&release("v", &[])), "");
}

#[test]
fn plan_install_already_installed() {
    let nv = release("v22.17.1", &["win-x64-zip"]);
    let plan = plan_install(&nv, &vec![s("22.17.1")], InstallArch::X64, "x86_64", "https://m");
    assert_eq!(plan.version, "22.17.1");
    assert!(matches!(plan.step, InstallStep::AlreadyInstalled));
}

#[test]
fn plan_install_missing_file() {
    let nv = release("v22.17.1", &["win-x64-zip", "linux-x64"]);
    let plan = plan_install(&nv, &vec![s("20.0.0")], InstallArch::Arm64, "x86_64", "https://m");
    assert_eq!(plan.arch, "arm64");
    assert!(matches!(plan.step, InstallStep::MissingFile));
}

#[test]
fn plan_install_download() {
    let nv = release("v22.17.1", &["win-x86-zip", "win-x64-zip"]);
    let plan = plan_install(&nv, &vec![], InstallArch::Default, "x86_64", "https://npmmirror.com/mirrors/node");
    assert_eq!(plan.arch, "x64");
    match plan.step {
        InstallStep::Download { url, file_name } => {
            assert_eq!(file_name, "node-v22.17.1-win-x64.zip");
            assert_eq!(url, "https://npmmirror.com/mirrors/node/v22.17.1/node-v22.17.1-win-x64.zip");
        }
        other => panic!("unexpected {other:?}"),
    }
}

#[test]
fn uninstall_matching_versions() {
    let installed = vec![s("22.17.1"), s("20.19.4"), s("22.16.0"), s("broken")];
    let req = VersionReq::parse("22").unwrap();
    assert_eq!(matching_versions(&installed, &req), vec![s("22.17.1"), s("22.16.0")]);
    let req = VersionReq::parse("20.19.4").unwrap();
    assert_eq!(matching_versions(&installed, &req), vec![s("20.19.4")]);
    let req = VersionReq::parse("18").unwrap();
    assert!(matching_versions(&installed, &req).is_empty());
}

#[test]
fn uninstall_choices() {
    assert_eq!(uninstall_choice(0, true), UninstallChoice::NotInstalled);
    assert_eq!(uninstall_choice(1, false), UninstallChoice::DeleteAll);
    assert_eq!(uninstall_choice(3, true), UninstallChoice::DeleteAll);
    assert_eq!(uninstall_choice(3, false), UninstallChoice::AskWhich);
}

#[test]
fn active_link_steps() {
    assert_eq!(active_link_step(&s("22.17.1"), &s("20.19.4"), false), ActiveLinkStep::Keep);
    assert_eq!(active_link_step(&s("22.17.1"), &s("22.17.1"), true), ActiveLinkStep::Remove);
    assert_eq!(active_link_step(&s("22.17.1"), &s("22.17.1"), false), ActiveLinkStep::Ask);
    assert_eq!(active_link_step(&s("22.17.1"), &s(""), false), ActiveLinkStep::Keep);
}

#[test]
fn list_marks_current_version() {
    let versions = vec![s("22.17.1"), s("20.19.4")];
    assert_eq!(current_marks(&versions, &Some(s("20.19.4"))), vec![false, true]);
    assert_eq!(current_marks(&versions, &None), vec![false, false]);
}

#[test]
fn add_path_then_both_directories_present() {
    let exe = s("C:\\rign");
    let node = s("C:\\rign\\nodejs\\actived");
    for start in [vec![], vec![s("C:\\rign")], vec![s("C:\\rign\\nodejs\\actived"), s("C:\\w")]] {
        let plan = plan_add_path(&start, &exe, &node, &AddPathArgs { no_exe: false, no_node: false });
        let mut after = start.clone();
        if plan.append_exe {
            assert!(!start.contains(&exe));
            after.push(exe.clone());
        }
        if plan.append_node {
            assert!(!start.contains(&node));
            after.push(node.clone());
        }
        assert!(after.contains(&exe) && after.contains(&node));
    }
}

#[test]
fn default_arch_lowercases_ascii_names() {
    assert_eq!(get_arch(InstallArch::Default, "X86_64"), "x64");
    assert_eq!(get_arch(InstallArch::Default, "ARM64"), "arm64");
    assert_eq!(get_arch(InstallArch::Default, "I686"), "x86");
}

#[test]
fn switch_steps() {
    assert_eq!(switch_step(true, false), SwitchStep::Switch);
    assert_eq!(switch_step(true, true), SwitchStep::Switch);
    assert_eq!(switch_step(false, true), SwitchStep::Install);
    assert_eq!(switch_step(false, false), SwitchStep::Ask);
}
