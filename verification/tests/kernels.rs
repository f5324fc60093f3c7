use popcorn::config::{
    blank_config, config_skeleton, dev_kernel_name, directory_name, host_os_name, missing_field,
    os_compatible, should_write_config, AdvancedConfig, Config, MissingField,
};
use popcorn::kernel::{
    build_dir, has_own_dir, husk_command, husk_local, husk_path, husk_script, is_unpacked,
    kernel_output, seed_command, seed_makes_output_dir, seeds_into_own_dir,
};
use popcorn::paths::{child_path, dev_dir, join_path, prod_dir, tmp_dir};

fn config(name: &str, kind: &str, seed: &str) -> Config {
    Config {
        kernel_name: name.to_string(),
        kernel_type: kind.to_string(),
        unpacked_husk: None,
        dev_cmd: String::new(),
        seed_cmd: seed.to_string(),
        advanced: None,
    }
}

#[test]
fn blank_config_is_empty() {
    let c = blank_config();
    assert_eq!(c.kernel_name, "");
    assert_eq!(c.unpacked_husk, Some(String::new()));
    assert!(c.advanced.is_none());
    assert_eq!(missing_field(&c), Some(MissingField::KernelName));
}

#[test]
fn missing_fields_in_order() {
    assert_eq!(missing_field(&config("k", "", "")), Some(MissingField::KernelType));
    assert_eq!(missing_field(&config("k", "packed", "")), Some(MissingField::SeedCmd));
    assert_eq!(missing_field(&config("k", "packed", "make")), None);
    assert_eq!(MissingField::KernelName.include_message(), "Please include a kernel_name in the config file.");
    assert_eq!(MissingField::SeedCmd.absent_message(), "No seed_cmd in the config file.");
}

#[test]
fn os_compatibility() {
    let mut c = config("k", "packed", "make");
    assert!(!os_compatible(&c, "linux"));
    assert!(os_compatible(&c, ""));
    c.advanced = Some(AdvancedConfig {
        os: Some(["mac".to_string(), "windows".to_string(), "linux".to_string()]),
        dev_node: None,
    });
    assert!(os_compatible(&c, "linux"));
    assert!(!os_compatible(&c, "bsd"));
    assert_eq!(host_os_name(false, false), "linux");
    assert_eq!(host_os_name(false, true), "mac");
    assert_eq!(host_os_name(true, false), "windows");
}

#[test]
fn init_writes_the_skeleton() {
    assert_eq!(directory_name("/home/u/proj", '/'), "proj");
    assert!(should_write_config(false, false));
    assert!(should_write_config(true, true));
    assert!(!should_write_config(true, false));
    let unpacked = config_skeleton("popcorn", false);
    assert_eq!(
        unpacked,
        "{\n\t\"kernel_name\": \"popcorn\",\n\t\"kernel_type\": \"unpacked\",\n\t\"unpacked_husk\": \"python @local/popcorn.py @args\",\n\t\"dev_cmd\": \"popcorn dev\",\n\t\"seed_cmd\": \"cp -r * @dest\",\n\t\"advanced\": {\n\t\t\"os\": [\"mac\", \"windows\", \"linux\"],\n\t\t\"dev_node\":  \"-dev\"\n\t}\n}"
    );
    let packed = config_skeleton("popcorn", true);
    assert_eq!(
        packed,
        "{\n\t\"kernel_name\": \"popcorn\",\n\t\"kernel_type\": \"packed\",\n\t\"dev_cmd\": \"popcorn dev\",\n\t\"seed_cmd\": \"go build -o @dest\",\n\t\"advanced\": {\n\t\t\"dev_node\": \"-dev\"\n\t}\n}"
    );
    for (packed, kind, seed) in [(false, "unpacked", "cp -r * @dest"), (true, "packed", "go build -o @dest")] {
        let v: serde_json::Value = serde_json::from_str(&config_skeleton("proj", packed)).unwrap();
        assert_eq!(v["kernel_name"], "proj");
        assert_eq!(v["kernel_type"], kind);
        assert_eq!(v["dev_cmd"], "popcorn dev");
        assert_eq!(v["seed_cmd"], seed);
        assert_eq!(v["advanced"].get("os").is_some(), !packed);
        assert_eq!(v["advanced"]["dev_node"], "-dev");
        assert_eq!(v.get("unpacked_husk").is_some(), !packed);
    }
}

#[test]
fn dev_command_name() {
    let mut c = config("popcorn", "unpacked", "cp");
    assert_eq!(dev_kernel_name(&c), "popcorn");
    c.advanced = Some(AdvancedConfig { os: None, dev_node: Some("-dev".to_string()) });
    assert_eq!(dev_kernel_name(&c), "popcorn-dev");
}

#[test]
fn seed_commands() {
    assert_eq!(seed_command("cp -R * @dest", "/h/.kernels/K/"), "cp -R * /h/.kernels/K/");
    assert_eq!(seed_command("go build -o @dest", "/dest"), "go build -o /dest");
    assert_eq!(seed_command("make", "/dest"), "make");
    assert!(seed_makes_output_dir(true, false));
    assert!(!seed_makes_output_dir(true, true));
    assert!(!seed_makes_output_dir(false, false));
}

#[test]
fn seed_destination_follows_the_type_as_written() {
    assert!(seeds_into_own_dir("unpacked", false));
    assert!(!seeds_into_own_dir("Unpacked", false));
    assert!(!seeds_into_own_dir("packed", false));
    assert!(seeds_into_own_dir("packed", true));
    assert!(seeds_into_own_dir("Unpacked", true));
}

#[test]
fn build_directories() {
    assert!(has_own_dir("Unpacked", false));
    assert!(has_own_dir("packed", true));
    assert!(!has_own_dir("packed", false));
    // -o gives a packed kernel a parent directory of its own
    let out = kernel_output(Some("raspberry"), "cowsay", "packed", '/');
    assert_eq!(out, "raspberry/");
    assert_eq!(build_dir("/h/.kernels", &out, '/', true), "/h/.kernels/raspberry/");
    assert_eq!(build_dir("/h/.kernels", "cowsay", '/', false), "/h/.kernels");
    assert_eq!(kernel_output(None, "cowsay", "packed", '/'), "cowsay");
    assert_eq!(kernel_output(None, "cowsay", "unpacked", '/'), "cowsay/");
}

#[test]
fn outputs_and_husks() {
    assert!(is_unpacked("UnPacked"));
    assert!(!is_unpacked("packed"));
    assert_eq!(husk_local("/h/.kernels", "cowsay/", '/'), "/h/.kernels/cowsay");
    assert_eq!(husk_local("/h/.kernels/", "cowsay", '/'), "/h/.kernels/cowsay");
    assert_eq!(
        husk_command("python @local/popcorn.py @args", "/h/.kernels/cowsay"),
        "python /h/.kernels/cowsay/popcorn.py $@"
    );
    assert_eq!(husk_command("Run @local/Main.py @args", "/D"), "Run /D/Main.py $@");
    assert_eq!(husk_script("run"), "#!/bin/bash\nrun");
    assert_eq!(husk_path("/h/.kernels", '/', "cowsay/", "cowsay"), "/h/.kernels/cowsay/cowsay");
}

#[test]
fn directories() {
    assert_eq!(join_path("/tmp", "popcorn-kernel", '/'), "/tmp/popcorn-kernel");
    assert_eq!(join_path("/", "x", '/'), "/x");
    assert_eq!(join_path("", "x", '/'), "x");
    assert_eq!(tmp_dir(false, "ignored", '/'), "/tmp/popcorn-kernel");
    assert_eq!(tmp_dir(true, "C:\\Temp", '\\'), "C:\\Temp\\popcorn-kernel");
    assert_eq!(dev_dir(Some("/w/proj"), '/'), "/w/proj/.popcorn");
    assert_eq!(dev_dir(None, '/'), "");
    assert_eq!(prod_dir(Some("/home/u/"), '/'), "/home/u/.kernels");
    assert_eq!(prod_dir(None, '/'), "");
    assert_eq!(child_path("/a", '/', "b"), "/a/b");
    let std_joined = std::path::Path::new("/tmp").join("popcorn-kernel");
    assert_eq!(join_path("/tmp", "popcorn-kernel", '/'), std_joined.to_str().unwrap());
}
