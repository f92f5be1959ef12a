use guepardos_welcome::system_status::{
    collect, detect_gpu, disk_free, firewall_services, guepardos_version, pending_updates,
    release_paths, service_status, session_label, snapshot_status, ReleaseFile, StatusProbe,
};

fn names(v: &[&str]) -> Vec<String> {
    v.iter().map(|s| s.to_string()).collect()
}

#[test]
fn updates_count_non_blank_lines() {
    assert_eq!(pending_updates(Some("linux 6.1 -> 6.2\nfirefox 1 -> 2\n  \n")), "2 disponibles");
    assert_eq!(pending_updates(Some("a\r\nb\r\nc\r\nd\ne\nf\ng\nh\ni\nj\nk\nl")), "12 disponibles");
    assert_eq!(pending_updates(Some("")), "Sistema al día");
    assert_eq!(pending_updates(Some("\n \t\n")), "Sistema al día");
    assert_eq!(pending_updates(None), "No disponible");
}

#[test]
fn gpu_name_follows_second_colon() {
    let out = "00:00.0 Host bridge: Intel Corporation Device\n01:00.0 VGA compatible controller: NVIDIA Corporation GA104 [GeForce RTX 3070]\n";
    assert_eq!(detect_gpu(Some(out)), "NVIDIA Corporation GA104 [GeForce RTX 3070]");
}

#[test]
fn gpu_match_ignores_case() {
    let out = "00:02.0 DISPLAY CONTROLLER: Acme GPU \n";
    assert_eq!(detect_gpu(Some(out)), "Acme GPU");
    assert_eq!(detect_gpu(Some("3D Controller without colons")), "3D Controller without colons");
}

#[test]
fn gpu_not_found() {
    assert_eq!(detect_gpu(Some("00:1f.3 Audio device: Intel\n")), "GPU no detectada");
    assert_eq!(detect_gpu(None), "GPU no detectada");
}

#[test]
fn disk_free_reads_fourth_field_of_second_line() {
    let out = "Filesystem      Size  Used Avail Use% Mounted on\n/dev/nvme0n1p2  468G  120G  325G  27% /\n";
    assert_eq!(disk_free(Some(out)), "325G libres");
    assert_eq!(disk_free(Some("only one line\n")), "No disponible");
    assert_eq!(disk_free(Some("h\na b c\n")), "No disponible");
    assert_eq!(disk_free(None), "No disponible");
}

#[test]
fn services_and_snapshots() {
    let fw = firewall_services();
    assert_eq!(fw, vec!["firewalld", "ufw"]);
    assert_eq!(service_status(false, &fw, &names(&["ufw"])), "Desconocido");
    assert_eq!(service_status(true, &fw, &names(&["ufw"])), "Activo");
    assert_eq!(service_status(true, &fw, &names(&[])), "No detectado");
    assert_eq!(snapshot_status(false, true, false), "Configurados");
    assert_eq!(snapshot_status(false, false, false), "No configurados");
}

#[test]
fn session_kind() {
    assert_eq!(session_label(Some("WayLand")), "Wayland");
    assert_eq!(session_label(Some("x11")), "X11");
    assert_eq!(session_label(Some("tty")), "X11");
    assert_eq!(session_label(None), "No disponible");
}

fn file(path: &str, content: Option<&str>) -> ReleaseFile {
    ReleaseFile { path: path.to_string(), content: content.map(|c| c.to_string()) }
}

#[test]
fn version_from_guepardos_release_file() {
    let files = vec![
        file("/etc/guepardos-release", Some("  2025.06 \n")),
        file("/etc/os-release", Some("VERSION_ID=\"1\"\n")),
    ];
    assert_eq!(guepardos_version(&files), Some("2025.06".to_string()));
}

#[test]
fn version_from_os_release() {
    let files = vec![
        file("/etc/guepardos-release", Some("  \n")),
        file("/etc/os-release", Some("NAME=GuepardOS\nVERSION_ID=\"2025.1\"\n")),
        file("/etc/lsb-release", None),
    ];
    assert_eq!(guepardos_version(&files), Some("2025.1".to_string()));
    let files = vec![file("/etc/guepardos-release", None), file("/etc/os-release", Some("NAME=x\n")), file("/etc/lsb-release", Some("VERSION_ID=3"))];
    assert_eq!(guepardos_version(&files), Some("3".to_string()));
    assert_eq!(guepardos_version(&vec![file("/etc/os-release", Some("NAME=x"))]), None);
}

#[test]
fn release_files_in_order() {
    assert_eq!(release_paths(), vec!["/etc/guepardos-release", "/etc/os-release", "/etc/lsb-release"]);
}

#[test]
fn overview_from_readings() {
    let probe = StatusProbe {
        internet: true,
        updates_output: Some("a 1 -> 2\n".to_string()),
        lspci_output: None,
        session_type: Some("wayland".to_string()),
        flatpak_installed: false,
        systemctl_available: true,
        active_services: names(&["firewalld"]),
        timeshift_installed: false,
        snapper_installed: false,
        snapshots_dir: false,
        bluetoothctl_installed: false,
        bluetooth_class_dir: true,
        df_output: None,
        reboot_required: true,
    };
    let s = collect(&probe);
    assert_eq!(s.internet, "Conectado");
    assert_eq!(s.updates, "1 disponibles");
    assert_eq!(s.gpu, "GPU no detectada");
    assert_eq!(s.session, "Wayland");
    assert_eq!(s.flatpak, "No está instalado");
    assert_eq!(s.firewall, "Activo");
    assert_eq!(s.snapshots, "No configurados");
    assert_eq!(s.bluetooth, "Disponible");
    assert_eq!(s.disk, "No disponible");
    assert!(s.reboot_required);
}
