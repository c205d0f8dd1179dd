use ctftool::distro::{
    get_debian_arch_str, get_debian_version, get_debian_versions_by_gcc_version,
    get_debian_versions_by_libc_version, get_distro_version, get_intersection, get_packages,
    get_ubuntu_version, get_ubuntu_versions_by_gcc_version, get_ubuntu_versions_by_libc_version,
    merge_packages_variants, packages_from_info, try_regex_1, version_from_capture, BinaryInfo,
    Class, DistroError, ElfHeader, Packages, DEBIAN_GCC_PATTERN,
};
use ctftool::option::contains;
use ctftool::path::{climb, relativize, Climb, DirectoryName, LoadError, Probe};
use ctftool::pattern::first_capture;

fn header(class: Class, big_endian: bool, machine: u16) -> ElfHeader {
    ElfHeader { class, big_endian, machine }
}

fn elf64_little(machine: u16) -> Vec<u8> {
    let mut bytes = vec![0u8; 64];
    bytes[0..4].copy_from_slice(&[0x7f, b'E', b'L', b'F']);
    bytes[4] = 2;
    bytes[5] = 1;
    bytes[6] = 1;
    bytes[16] = 2;
    bytes[18..20].copy_from_slice(&machine.to_le_bytes());
    bytes[20] = 1;
    bytes[52] = 64;
    bytes
}

#[test]
fn debian_names_of_architectures() {
    let cases = [
        (header(Class::Elf32, false, 3), Some("i386")),
        (header(Class::Elf64, false, 183), Some("arm64")),
        (header(Class::Elf64, false, 41), Some("alpha")),
        (header(Class::Elf32, false, 40), Some("armhf")),
        (header(Class::Elf32, false, 185), Some("avr32")),
        (header(Class::Elf64, false, 50), Some("ia64")),
        (header(Class::Elf32, true, 8), Some("mips")),
        (header(Class::Elf32, false, 8), Some("mipsel")),
        (header(Class::Elf64, false, 8), Some("mips64el")),
        (header(Class::Elf32, true, 15), Some("hppa")),
        (header(Class::Elf32, true, 20), Some("powerpc")),
        (header(Class::Elf64, true, 21), Some("ppc64")),
        (header(Class::Elf64, false, 21), Some("ppc64el")),
        (header(Class::Elf64, false, 243), Some("riscv64")),
        (header(Class::Elf32, true, 22), Some("s390")),
        (header(Class::Elf64, true, 22), Some("s390x")),
        (header(Class::Elf32, false, 42), Some("sh4")),
        (header(Class::Elf32, true, 2), Some("sparc")),
        (header(Class::Elf64, true, 2), Some("sparc64")),
        (header(Class::Elf64, false, 62), Some("amd64")),
        (header(Class::Elf64, false, 0), None),
    ];
    for (h, expected) in cases {
        assert_eq!(get_debian_arch_str(&h), expected);
    }
}

#[test]
fn versions_by_compiler_and_library() {
    assert_eq!(get_debian_versions_by_gcc_version("6.3.0-18"), vec!["9"]);
    assert_eq!(get_debian_versions_by_gcc_version("8.3.0-6"), vec!["10"]);
    assert_eq!(get_debian_versions_by_gcc_version("10.2.1-6"), vec!["11"]);
    assert_eq!(get_debian_versions_by_gcc_version("12.2.0-14"), vec!["12"]);
    assert!(get_debian_versions_by_gcc_version("5.4.0").is_empty());
    assert_eq!(get_ubuntu_versions_by_gcc_version("7.5.0"), vec!["18.04"]);
    assert_eq!(get_ubuntu_versions_by_gcc_version("9.4.0"), vec!["20.04"]);
    assert_eq!(get_ubuntu_versions_by_gcc_version("11.3.0-1ubuntu1~22.04"), vec!["22.04"]);
    assert_eq!(get_ubuntu_versions_by_gcc_version("12.2.0"), vec!["22.10", "23.04"]);
    assert!(get_ubuntu_versions_by_gcc_version("1.0").is_empty());
    assert_eq!(get_debian_versions_by_libc_version("2.24-11"), vec!["9"]);
    assert_eq!(get_debian_versions_by_libc_version("2.28-10"), vec!["10"]);
    assert_eq!(get_debian_versions_by_libc_version("2.31-13"), vec!["11"]);
    assert_eq!(get_debian_versions_by_libc_version("2.36-9"), vec!["12"]);
    assert!(get_debian_versions_by_libc_version("2.36").is_empty());
    assert_eq!(get_ubuntu_versions_by_libc_version("2.27-3ubuntu1"), vec!["18.04"]);
    assert_eq!(get_ubuntu_versions_by_libc_version("2.31-0ubuntu9"), vec!["20.04"]);
    assert_eq!(get_ubuntu_versions_by_libc_version("2.35-0ubuntu3"), vec!["22.04"]);
    assert_eq!(get_ubuntu_versions_by_libc_version("2.36-0ubuntu4"), vec!["22.10"]);
    assert_eq!(get_ubuntu_versions_by_libc_version("2.37-0ubuntu2"), vec!["23.04"]);
    assert!(get_ubuntu_versions_by_libc_version("3.0").is_empty());
}

#[test]
fn intersection_keeps_the_order_of_the_first() {
    assert_eq!(
        get_intersection(&[vec!["a", "b", "c"], vec!["c", "a"], vec!["a", "c", "d"]]),
        vec!["a", "c"]
    );
    assert_eq!(get_intersection(&[vec!["a", "b"]]), vec!["a", "b"]);
    assert!(get_intersection(&[vec!["a"], vec![]]).is_empty());
    assert!(get_intersection(&[]).is_empty());
    assert_eq!(
        get_distro_version(vec![Some(vec!["22.10", "23.04"]), None, Some(vec!["23.04"])]),
        Some("23.04")
    );
    assert_eq!(get_distro_version(vec![None, None]), None);
    assert_eq!(get_distro_version(vec![Some(vec!["9"]), Some(vec!["10"])]), None);
}

#[test]
fn versions_are_read_from_the_marks() {
    let bytes = b"\x7fELF....GCC: (Debian 10.2.1-6) 10.2.1 20210110\0GNU C Library (Debian GLIBC 2.31-13+deb11u5) stable";
    let info = BinaryInfo::analyze(bytes).unwrap();
    assert_eq!(info.ehdr, None);
    assert_eq!(info.debian_gcc_version, Some("10.2.1-6".to_string()));
    assert_eq!(info.debian_libc_version, Some("2.31-13+deb11u5".to_string()));
    assert_eq!(info.ubuntu_gcc_version, None);
    assert_eq!(info.ubuntu_libc_version, None);
    assert_eq!(get_debian_version(&info), Some("11"));
    assert_eq!(get_ubuntu_version(&info), None);
    assert_eq!(
        get_packages(bytes).unwrap(),
        Some(Packages {
            arch: Some("amd64"),
            distro: Some("debian"),
            distro_version: Some("11"),
            libc_version: Some("2.31-13+deb11u5".to_string()),
        })
    );
    assert_eq!(get_packages(b"nothing to see").unwrap(), None);
}

#[test]
fn the_loader_stands_in_for_the_library() {
    let bytes = b"ld.so (Ubuntu GLIBC 2.35-0ubuntu3.1) stable release";
    let info = BinaryInfo::analyze(bytes).unwrap();
    assert_eq!(info.ubuntu_libc_version, Some("2.35-0ubuntu3.1".to_string()));
    assert_eq!(
        packages_from_info(info),
        Some(Packages {
            arch: Some("amd64"),
            distro: Some("ubuntu"),
            distro_version: Some("22.04"),
            libc_version: Some("2.35-0ubuntu3.1".to_string()),
        })
    );
}

#[test]
fn the_header_gives_the_architecture() {
    let mut bytes = elf64_little(183);
    bytes.extend_from_slice(b"GCC: (Ubuntu 9.4.0-1ubuntu1~20.04.1) 9.4.0");
    let info = BinaryInfo::analyze(&bytes).unwrap();
    assert_eq!(info.ehdr, Some(header(Class::Elf64, false, 183)));
    let packages = get_packages(&bytes).unwrap().unwrap();
    assert_eq!(packages.arch, Some("arm64"));
    assert_eq!(packages.distro, Some("ubuntu"));
    assert_eq!(packages.distro_version, Some("20.04"));
    assert_eq!(packages.libc_version, None);
}

#[test]
fn captures_and_versions() {
    assert_eq!(first_capture("a(b+)", b"xxabbbxab").unwrap(), Some(Some(b"bbb".to_vec())));
    assert_eq!(first_capture("a(b)?", b"xa").unwrap(), Some(None));
    assert_eq!(first_capture("a(b)", b"xyz").unwrap(), None);
    assert!(first_capture("(", b"xyz").is_err());
    assert_eq!(version_from_capture(None), Ok(None));
    assert_eq!(version_from_capture(Some(None)), Err(DistroError::MissingCapture));
    assert_eq!(version_from_capture(Some(Some(b"1.2".to_vec()))), Ok(Some("1.2".to_string())));
    assert_eq!(version_from_capture(Some(Some(vec![0xff, 0xfe]))), Err(DistroError::NotUtf8));
    let mut version = None;
    assert_eq!(try_regex_1(&mut version, DEBIAN_GCC_PATTERN, b"GCC: (Debian 6.3.0-18) 6.3.0"), Ok(()));
    assert_eq!(version, Some("6.3.0-18".to_string()));
    assert_eq!(try_regex_1(&mut version, DEBIAN_GCC_PATTERN, b"GCC: (Debian 8.3.0-6) 8.3.0"), Ok(()));
    assert_eq!(version, Some("6.3.0-18".to_string()));
    let mut none = None;
    assert_eq!(try_regex_1(&mut none, DEBIAN_GCC_PATTERN, b"GCC: (Debian \xff\xfe) 1"), Ok(()));
    assert_eq!(none, None);
    assert!(matches!(try_regex_1(&mut none, "(", b"x"), Err(DistroError::Pattern(_))));
}

#[test]
fn merged_packages_take_the_first_values() {
    let a = Packages { arch: None, distro: Some("debian"), distro_version: None, libc_version: None };
    let b = Packages {
        arch: Some("arm64"),
        distro: Some("ubuntu"),
        distro_version: Some("22.04"),
        libc_version: Some("2.35".to_string()),
    };
    assert_eq!(
        merge_packages_variants(vec![a, b]),
        Packages {
            arch: Some("arm64"),
            distro: Some("debian"),
            distro_version: Some("22.04"),
            libc_version: Some("2.35".to_string()),
        }
    );
    assert_eq!(merge_packages_variants(vec![]), Packages::default());
}

#[test]
fn contains_compares_with_the_value() {
    assert!(contains(&Some(3), &3));
    assert!(!contains(&Some(3), &4));
    assert!(!contains(&None::<i32>, &4));
    assert!(contains(&Some("orig".to_string()), &"orig".to_string()));
}

#[test]
fn relativize_strips_the_root() {
    let s = |items: &[&str]| -> Vec<String> { items.iter().map(|i| i.to_string()).collect() };
    assert_eq!(
        relativize(&s(&["home", "me", "ctf"]), &s(&["home", "me", "ctf", "chal", "exe"])),
        Ok(s(&["chal", "exe"]))
    );
    assert_eq!(relativize(&s(&["home", "me", "ctf"]), &s(&["home", "me", "ctf"])), Ok(vec![]));
    let outside = relativize(&s(&["home", "me", "ctf"]), &s(&["home", "you", "ctf", "chal"]));
    assert!(outside.is_err());
    assert_eq!(outside.unwrap_err().message("/home/you/ctf/chal"), "/home/you/ctf/chal is not in the CTF directory");
    assert!(relativize(&s(&["home", "me"]), &s(&["home"])).is_err());
}

#[test]
fn climb_to_the_workspace() {
    let mut below = vec![];
    let text = |t: &str| DirectoryName::Text(t.to_string());
    assert_eq!(climb(Probe::Missing, text("src"), &mut below), Climb::Up);
    assert_eq!(climb(Probe::Missing, text("chal"), &mut below), Climb::Up);
    assert_eq!(climb(Probe::Found, text("ctf"), &mut below), Climb::Load);
    assert_eq!(below, vec!["chal", "src"]);
    let stop = climb(Probe::Missing, DirectoryName::Root, &mut below);
    assert_eq!(stop, Climb::Stop(LoadError::NoWorkspace));
    assert_eq!(
        LoadError::NoWorkspace.message(),
        "No .ctf file in the current or any of the parent directories"
    );
    assert_eq!(
        climb(Probe::Missing, DirectoryName::NotText, &mut below),
        Climb::Stop(LoadError::NotText)
    );
    assert_eq!(LoadError::NotText.message(), "Non-UTF-8 path");
    assert_eq!(
        climb(Probe::Failed("denied".to_string()), text("x"), &mut below),
        Climb::Stop(LoadError::Io("denied".to_string()))
    );
    assert_eq!(below, vec!["chal", "src"]);
}
