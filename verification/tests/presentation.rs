use guepardos_welcome::first_steps::FirstStepsState;
use guepardos_welcome::package_installer::{development, PackageSource};
use guepardos_welcome::presentation::{
    autostart_change, confirm_message, grid_cell, install_result_message, is_completed,
    item_row_label, item_selectable, join, packages_line, release_line, should_install,
    status_pills, status_text, status_value, AutostartChange,
};
use guepardos_welcome::system_status::SystemStatus;

#[test]
fn joins_with_separator() {
    let v = vec!["a".to_string(), "b".to_string(), "c".to_string()];
    assert_eq!(join(&v, ", "), "a, b, c");
    assert_eq!(join(&vec![], ", "), "");
}

#[test]
fn status_label_text() {
    assert_eq!(status_text("GPU", "Comprobando..."), "GPU: Comprobando...");
    assert_eq!(status_pills().len(), 5);
    assert_eq!(grid_cell(4), (1, 1));
}

#[test]
fn status_value_by_key() {
    let s = SystemStatus {
        internet: "Conectado".into(),
        updates: "3 disponibles".into(),
        gpu: "g".into(),
        session: "X11".into(),
        flatpak: "Instalado".into(),
        firewall: "f".into(),
        snapshots: "s".into(),
        bluetooth: "b".into(),
        disk: "d".into(),
        reboot_required: false,
    };
    assert_eq!(status_value(&s, "updates"), "3 disponibles");
    assert_eq!(status_value(&s, "flatpak"), "Instalado");
    assert_eq!(status_value(&s, "disk"), "");
}

#[test]
fn item_rows() {
    let d = development();
    assert_eq!(item_row_label(&d[0], true), "Git · instalado");
    assert_eq!(item_row_label(&d[1], false), "VSCodium · fuente no disponible todavía");
    assert_eq!(item_row_label(&d[2], false), ".NET SDK");
    assert!(item_selectable(&d[0], false));
    assert!(!item_selectable(&d[0], true));
    assert_eq!(d[1].source, PackageSource::Unavailable);
    assert!(!item_selectable(&d[1], false));
    assert_eq!(packages_line(&d[6]), "Paquetes: docker, docker-compose");
}

#[test]
fn confirmation_and_result_messages() {
    assert_eq!(confirm_message(&vec![]), "Todo lo seleccionado ya está instalado.");
    let pk = vec!["steam".to_string(), "lutris".to_string()];
    assert_eq!(confirm_message(&pk), "Se instalarán estos paquetes:\n\nsteam, lutris");
    assert!(should_install(true, &pk));
    assert!(!should_install(false, &pk));
    assert!(!should_install(true, &vec![]));
    assert_eq!(install_result_message(&Ok("x".into())), (false, "Instalación finalizada.".to_string()));
    assert_eq!(
        install_result_message(&Err("boom".into())),
        (true, "No se pudo completar la instalación:\n\nboom".to_string())
    );
}

#[test]
fn header_release_line() {
    assert_eq!(release_line(Some("2025.1")), "Basado en Arch Linux · Rolling Release · 2025.1");
    assert_eq!(release_line(None), "Basado en Arch Linux · Rolling Release");
}

#[test]
fn checklist_box_and_autostart() {
    let s = FirstStepsState { completed: vec!["apps".to_string()] };
    assert!(is_completed(&s, "apps"));
    assert!(!is_completed(&s, "internet"));
    assert_eq!(autostart_change(true, false), AutostartChange::Link);
    assert_eq!(autostart_change(false, true), AutostartChange::Remove);
    assert_eq!(autostart_change(true, true), AutostartChange::Keep);
    assert_eq!(autostart_change(false, false), AutostartChange::Keep);
}
