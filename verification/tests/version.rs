use mchose_tray::version::{numeric_version, parse_u16};

#[test]
fn converts_semver_to_windows_version() {
    assert_eq!(numeric_version("1.2.3"), [1, 2, 3, 0]);
    assert_eq!(numeric_version("1.2.3-beta.1"), [1, 2, 3, 0]);
}

#[test]
fn missing_overlong_and_extra_parts() {
    assert_eq!(numeric_version(""), [0, 0, 0, 0]);
    assert_eq!(numeric_version("7"), [7, 0, 0, 0]);
    assert_eq!(numeric_version("1.70000.3.4.5"), [1, 0, 3, 4]);
    assert_eq!(numeric_version("2-3.+4.05"), [2, 3, 4, 5]);
    assert_eq!(numeric_version("..9"), [0, 0, 9, 0]);
}

#[test]
fn parse_matches_std() {
    for text in ["0", "65535", "65536", "+1", "+", "-1", "", "12a", "007", "99999999999"] {
        assert_eq!(parse_u16(text), text.parse::<u16>().ok(), "{text:?}");
    }
}

fn expected_resource(binary: &str, description: &str, version: [u16; 4], icon: &str) -> String {
    let dotted = format!(
        "{}.{}.{}.{}",
        version[0], version[1], version[2], version[3]
    );
    let comma = format!(
        "{},{},{},{}",
        version[0], version[1], version[2], version[3]
    );
    let icon = icon.replace('\\', "/");
    format!(
        r#"1 ICON "{icon}"

1 VERSIONINFO
FILEVERSION {comma}
PRODUCTVERSION {comma}
FILEFLAGSMASK 0x3fL
FILEFLAGS 0
FILEOS 0x00040004L
FILETYPE 0x00000001L
BEGIN
    BLOCK "StringFileInfo"
    BEGIN
        BLOCK "040904B0"
        BEGIN
            VALUE "FileDescription", "{description}\0"
            VALUE "FileVersion", "{dotted}\0"
            VALUE "InternalName", "{binary}\0"
            VALUE "OriginalFilename", "{binary}.exe\0"
            VALUE "ProductName", "MCHOSE Battery\0"
            VALUE "ProductVersion", "{dotted}\0"
        END
    END
    BLOCK "VarFileInfo"
    BEGIN
        VALUE "Translation", 0x0409, 1200
    END
END
"#
    )
}

#[test]
fn resource_script_names_icon_and_version() {
    let icon = "C:\\src\\mchose\\assets\\mchose.ico";
    let script = mchose_tray::version::version_resource(
        "mchose-tray",
        "MCHOSE Battery Tray",
        [1, 20, 3, 0],
        icon,
    );
    assert_eq!(
        script,
        expected_resource("mchose-tray", "MCHOSE Battery Tray", [1, 20, 3, 0], icon)
    );
    assert!(script.starts_with("1 ICON \"C:/src/mchose/assets/mchose.ico\"\n"));
    assert!(script.contains("FILEVERSION 1,20,3,0\n"));
    assert!(script.contains("\"1.20.3.0\\0\""));
}
