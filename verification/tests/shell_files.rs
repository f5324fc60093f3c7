use popcorn::shellrc::{
    addition_if_missing, butter_source_line, check_removal, dev_kernel_marker, empty_path_script,
    export_line, kernel_path_entry, new_path_script, not_installed_message, path_script_addition,
    plan_dev_install, prod_kernel_marker, rc_file_name, removal_target, removed_message,
    removing_message, shell_program, source_command, with_butter_sourced,
    without_lines_mentioning, without_path_entries, DevInstallStep,
};

#[test]
fn shell_and_rc_names() {
    assert_eq!(shell_program("/bin/zsh"), "zsh");
    assert_eq!(rc_file_name("/usr/bin/bash"), ".bashrc");
    assert_eq!(rc_file_name(""), ".rc");
    assert_eq!(source_command("/home/u/.zshrc"), "source /home/u/.zshrc");
}

#[test]
fn butter_line_is_added_once() {
    let line = butter_source_line('/');
    assert_eq!(line, ". $HOME/.kernels/butter.sh\n");
    let contents = "alias x=y\n";
    let add = addition_if_missing(contents, &line, &line).unwrap();
    let after = format!("{}{}", contents, add);
    assert_eq!(addition_if_missing(&after, &line, &line), None);
}

#[test]
fn path_script_lines() {
    assert_eq!(kernel_path_entry(false, "/h/.kernels", '/', "k"), "/h/.kernels");
    assert_eq!(kernel_path_entry(true, "/h/.kernels", '/', "k/"), "/h/.kernels/k/");
    assert_eq!(export_line(':', "/h/.kernels"), "export PATH=$PATH:/h/.kernels");
    assert_eq!(new_path_script(':', "/e"), "#!/bin/bash\nexport PATH=$PATH:/e");
    assert_eq!(empty_path_script(), "#!/bin/bash\n");
    let script = new_path_script(':', "/e");
    assert_eq!(path_script_addition(&script, ':', "/e"), None);
    let add = path_script_addition(&script, ':', "/f").unwrap();
    assert_eq!(add, "\nexport PATH=$PATH:/f");
    let script2 = format!("{}{}", script, add);
    assert_eq!(path_script_addition(&script2, ':', "/f"), None);
}

#[test]
fn dev_install_steps() {
    assert!(matches!(plan_dev_install("", "/bin", ':'), DevInstallStep::NoDevDir));
    assert!(matches!(plan_dev_install("/p/.popcorn", "/bin:/p/.popcorn", ':'), DevInstallStep::AlreadyInstalled));
    match plan_dev_install("/p/.popcorn", "/bin", ':') {
        DevInstallStep::Append(line) => assert_eq!(line, "\nexport PATH=$PATH:/p/.popcorn\n"),
        _ => panic!("expected a line"),
    }
}

#[test]
fn prod_install_sources_butter_at_the_top_once() {
    let all = with_butter_sourced("export A=1\n").unwrap();
    assert_eq!(all, ". $HOME/.kernels/butter.sh\nexport A=1\n");
    assert_eq!(with_butter_sourced(&all), None);
}

#[test]
fn removal_drops_the_kernel_lines() {
    let script = "#!/bin/bash\nexport PATH=$PATH:/h/.kernels/cowsay/\r\nexport PATH=$PATH:/h/.kernels/x/\n";
    let out = without_lines_mentioning(script, "/h/.kernels/cowsay");
    assert_eq!(out, "#!/bin/bash\nexport PATH=$PATH:/h/.kernels/x/");
    assert!(!out.contains("/h/.kernels/cowsay"));
    assert_eq!(without_path_entries("a;b\\k;c", "b\\k", ';'), "a;c");
    assert_eq!(without_path_entries("", "k", ';'), "");
}

#[test]
fn removal_checks_and_messages() {
    assert_eq!(dev_kernel_marker("proj", '/'), "proj/.popcorn");
    assert_eq!(prod_kernel_marker("/h/.kernels", '/', "cowsay"), "/h/.kernels/cowsay");
    assert_eq!(check_removal("/bin:/h/.kernels/cowsay", "/h/.kernels/cowsay", "cowsay", true), Ok(()));
    assert_eq!(
        check_removal("/bin", "/h/.kernels/cowsay", "cowsay", true),
        Err("Kernel cowsay not installed.".to_string())
    );
    assert_eq!(
        check_removal("/h/.kernels/butter.sh", "/h/.kernels/butter.sh", "butter.sh", true),
        Err("Not a kernel".to_string())
    );
    assert_eq!(check_removal("/h/.kernels/butter.sh", "/h/.kernels/butter.sh", "butter.sh", false), Ok(()));
    assert_eq!(not_installed_message("k"), "Kernel k not installed.");
    assert_eq!(removed_message("k", true), "Removed dev kernel k!");
    assert_eq!(removed_message("k", false), "Removed kernel k!");
    assert_eq!(removing_message("k"), "Removing k...");
}

#[test]
fn remove_needs_a_kernel_name() {
    assert_eq!(removal_target(Some("cowsay")), Ok("cowsay".to_string()));
    assert_eq!(removal_target(None), Err("Please specify a kernel to remove.".to_string()));
}
